use crate::consts::VM_MAX_RAM;
use crate::error::PanicReason;
use crate::range::MemoryRange;
use core::ops::Range;
use vstd::prelude::*;

verus! {

/// The registers that decide which memory the current context may write: the
/// stack between `ssp` and `sp`, and the heap between `hp` and `prev_hp`, the heap
/// pointer of the calling context (or the memory size at the top level).
#[derive(Debug, Clone, Copy)]
pub struct OwnershipRegisters {
    pub sp: u64,
    pub ssp: u64,
    pub hp: u64,
    pub prev_hp: u64,
}

impl OwnershipRegisters {
    /// Whether the range `start..end` is owned on the stack. An empty range is owned
    /// when it starts at the stack start.
    pub open spec fn owns_stack(&self, start: int, end: int) -> bool {
        (!(start < end) && start == self.ssp)
        || (self.ssp <= start < self.sp && end <= VM_MAX_RAM && self.ssp <= end <= self.sp)
    }

    /// Whether the range `start..end` is owned on the heap. An empty range is owned
    /// when it starts at the heap pointer.
    pub open spec fn owns_heap(&self, start: int, end: int) -> bool {
        (!(start < end) && start == self.hp)
        || (start >= self.hp && self.hp != self.prev_hp && end <= self.prev_hp)
    }

    /// Whether the range `start..end` may be written.
    pub open spec fn owns(&self, start: int, end: int) -> bool {
        self.owns_stack(start, end) || self.owns_heap(start, end)
    }

    /// Ownership from the given register values.
    pub fn from_registers(sp: u64, ssp: u64, hp: u64, prev_hp: u64) -> (r: Self)
        ensures
            r.sp == sp,
            r.ssp == ssp,
            r.hp == hp,
            r.prev_hp == prev_hp,
    {
        OwnershipRegisters { sp, ssp, hp, prev_hp }
    }

    /// Ownership that allows writing only the stack.
    pub fn only_allow_stack_write(sp: u64, ssp: u64, hp: u64) -> (r: Self)
        requires
            sp <= VM_MAX_RAM,
            ssp <= VM_MAX_RAM,
            hp <= VM_MAX_RAM,
            ssp <= sp,
            sp <= hp,
        ensures
            r.sp == sp,
            r.ssp == ssp,
            r.hp == hp,
            r.prev_hp == hp,
    {
        OwnershipRegisters { sp, ssp, hp, prev_hp: hp }
    }

    /// Ownership of the whole memory as stack.
    pub fn test_full_stack() -> (r: Self)
        ensures
            r.sp == VM_MAX_RAM,
            r.ssp == 0,
            r.hp == VM_MAX_RAM,
            r.prev_hp == VM_MAX_RAM,
    {
        OwnershipRegisters { sp: VM_MAX_RAM, ssp: 0, hp: VM_MAX_RAM, prev_hp: VM_MAX_RAM }
    }

    /// `Ok` if the range may be written, else `MemoryOwnership`.
    pub fn verify_ownership(&self, range: &MemoryRange) -> (r: Result<(), PanicReason>)
        ensures
            match r {
                Ok(()) => self.owns(range@.0, range@.1),
                Err(e) => !self.owns(range@.0, range@.1) && e == PanicReason::MemoryOwnership,
            },
    {
        if self.has_ownership_range(&range.words()) {
            Ok(())
        } else {
            Err(PanicReason::MemoryOwnership)
        }
    }

    /// Whether the range may be written.
    pub fn has_ownership_range(&self, range: &Range<u64>) -> (r: bool)
        ensures
            r == self.owns(range.start as int, range.end as int),
    {
        self.has_ownership_stack(range) || self.has_ownership_heap(range)
    }

    /// Whether the range is owned on the stack.
    pub fn has_ownership_stack(&self, range: &Range<u64>) -> (r: bool)
        ensures
            r == self.owns_stack(range.start as int, range.end as int),
    {
        if !(range.start < range.end) && range.start == self.ssp {
            return true;
        }
        if !(self.ssp <= range.start && range.start < self.sp) {
            return false;
        }
        if range.end > VM_MAX_RAM {
            return false;
        }
        self.ssp <= range.end && range.end <= self.sp
    }

    /// Whether the range is owned on the heap.
    pub fn has_ownership_heap(&self, range: &Range<u64>) -> (r: bool)
        ensures
            r == self.owns_heap(range.start as int, range.end as int),
    {
        if !(range.start < range.end) && range.start == self.hp {
            return true;
        }
        if range.start < self.hp {
            return false;
        }
        self.hp != self.prev_hp && range.end <= self.prev_hp
    }
}

} // verus!
