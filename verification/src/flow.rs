use crate::consts::{INSTRUCTION_SIZE, VM_MAX_RAM};
use crate::error::{PanicOrBug, PanicReason, SimpleResult};
use crate::gas::{sat_add, sat_mul, saturating_mul};
use crate::internal::{inc_pc_result, pc_advanced};
use vstd::prelude::*;

verus! {

/// How a jump computes its target.
#[derive(Debug, Clone, Copy, PartialEq, Eq, Hash, Structural)]
pub enum JumpMode {
    /// `$pc = reg + (imm * instruction_size)`
    Assign,
    /// `$pc = $is + (reg + imm) * instruction_size`
    RelativeIS,
    /// `$pc = $pc + (reg + imm + 1) * instruction_size`
    RelativeForwards,
    /// `$pc = $pc - (reg + imm + 1) * instruction_size`
    RelativeBackwards,
}

/// The arguments of a jump instruction.
#[derive(Debug, Clone, Copy, PartialEq, Eq, Hash, Structural)]
pub struct JumpArgs {
    /// The jump is performed only if this is true.
    pub condition: bool,
    /// The kind of jump.
    pub mode: JumpMode,
    /// Register part of the target.
    pub dynamic: u64,
    /// Immediate part of the target.
    pub fixed: u64,
}

impl JumpArgs {
    /// The target address of the jump from `pc`, or `MemoryOverflow` if a backward
    /// jump goes below address 0. Intermediate results saturate at `u64::MAX`.
    pub open spec fn target(&self, is: u64, pc: u64) -> Result<int, PanicReason> {
        let size = INSTRUCTION_SIZE as int;
        match self.mode {
            JumpMode::Assign => Ok(sat_add(self.dynamic as int, sat_mul(self.fixed as int, size))),
            JumpMode::RelativeIS => Ok(sat_add(is as int, sat_mul(sat_add(self.dynamic as int, self.fixed as int), size))),
            JumpMode::RelativeForwards => Ok(sat_add(pc as int, sat_mul(
                sat_add(sat_add(self.dynamic as int, self.fixed as int), 1), size))),
            JumpMode::RelativeBackwards => {
                let offset = sat_mul(sat_add(sat_add(self.dynamic as int, self.fixed as int), 1), size);
                if offset > pc { Err(PanicReason::MemoryOverflow) } else { Ok(pc - offset) }
            },
        }
    }

    /// An unconditional jump of the given mode with both target parts zero.
    pub fn new(mode: JumpMode) -> (r: Self)
        ensures
            r == (JumpArgs { condition: true, mode, dynamic: 0, fixed: 0 }),
    {
        JumpArgs { condition: true, mode, dynamic: 0, fixed: 0 }
    }

    /// The jump, performed only if `condition` holds.
    pub fn with_condition(self, condition: bool) -> (r: Self)
        ensures
            r == (JumpArgs { condition, ..self }),
    {
        JumpArgs { condition, ..self }
    }

    /// The jump, with register part `addr`.
    pub fn to_address(self, addr: u64) -> (r: Self)
        ensures
            r == (JumpArgs { dynamic: addr, ..self }),
    {
        JumpArgs { dynamic: addr, ..self }
    }

    /// The jump, with immediate part `addr`.
    pub fn plus_fixed(self, addr: u64) -> (r: Self)
        ensures
            r == (JumpArgs { fixed: addr, ..self }),
    {
        JumpArgs { fixed: addr, ..self }
    }

    /// Performs the jump: without the condition, advances the program counter;
    /// otherwise sets it to the target, which must lie within the VM memory.
    pub fn jump(&self, is: u64, pc: &mut u64) -> (r: SimpleResult<()>)
        ensures
            if !self.condition {
                match pc_advanced(*old(pc)) {
                    Ok(p) => r == Ok::<(), PanicOrBug>(()) && *final(pc) == p,
                    Err(e) => r == Err::<(), PanicOrBug>(PanicOrBug::Panic(e)) && *final(pc) == *old(pc),
                }
            } else {
                match self.target(is, *old(pc)) {
                    Ok(t) => if t >= VM_MAX_RAM {
                        r == Err::<(), PanicOrBug>(PanicOrBug::Panic(PanicReason::MemoryOverflow))
                            && *final(pc) == *old(pc)
                    } else {
                        r == Ok::<(), PanicOrBug>(()) && *final(pc) == t
                    },
                    Err(e) => r == Err::<(), PanicOrBug>(PanicOrBug::Panic(e)) && *final(pc) == *old(pc),
                }
            },
    {
        if !self.condition {
            return inc_pc_result(pc);
        }
        let target_addr = match self.mode {
            JumpMode::Assign => self.dynamic.saturating_add(saturating_mul(self.fixed, INSTRUCTION_SIZE)),
            JumpMode::RelativeIS => {
                let offset_instructions = self.dynamic.saturating_add(self.fixed);
                let offset_bytes = saturating_mul(offset_instructions, INSTRUCTION_SIZE);
                is.saturating_add(offset_bytes)
            },
            JumpMode::RelativeForwards => {
                let offset_instructions = self.dynamic.saturating_add(self.fixed).saturating_add(1);
                let offset_bytes = saturating_mul(offset_instructions, INSTRUCTION_SIZE);
                pc.saturating_add(offset_bytes)
            },
            JumpMode::RelativeBackwards => {
                let offset_instructions = self.dynamic.saturating_add(self.fixed).saturating_add(1);
                let offset_bytes = saturating_mul(offset_instructions, INSTRUCTION_SIZE);
                match pc.checked_sub(offset_bytes) {
                    Some(t) => t,
                    None => return Err(PanicOrBug::Panic(PanicReason::MemoryOverflow)),
                }
            },
        };
        if target_addr >= VM_MAX_RAM {
            return Err(PanicOrBug::Panic(PanicReason::MemoryOverflow));
        }
        *pc = target_addr;
        Ok(())
    }
}

} // verus!
