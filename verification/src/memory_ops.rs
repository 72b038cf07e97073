use crate::bytes::{word_be_bytes, word_from_be, word_from_be_bytes, word_to_be_bytes, law_word_be_roundtrip};
use crate::consts::{MEM_SIZE, SEGMENT_REGISTER_COUNT, WORD_SIZE};
use crate::error::{PanicOrBug, PanicReason, SimpleResult};
use crate::internal::{inc_pc_result, pc_advanced};
use crate::memory::{MemoryInstance, MemoryModel, zeros};
use crate::ownership::OwnershipRegisters;
use vstd::prelude::*;

verus! {

/// One of the two halves of the program registers that PSH/POP instructions address.
#[derive(Debug, Clone, Copy, PartialEq, Eq, Structural)]
pub enum ProgramRegistersSegment {
    /// Registers 16 to 39.
    Low,
    /// Registers 40 to 63.
    High,
}

/// Index, among the program registers, of the first register of a segment.
pub open spec fn segment_base(segment: ProgramRegistersSegment) -> int {
    match segment {
        ProgramRegistersSegment::Low => 0,
        ProgramRegistersSegment::High => 24,
    }
}

/// The 48 program registers, those from 16 up.
#[derive(Debug, Clone, Copy, PartialEq, Eq)]
pub struct ProgramRegisters(pub [u64; 48]);

/// Whether bit `i` of `mask` selects a register.
pub open spec fn bit_set(mask: u32, i: u32) -> bool {
    mask & (1u32 << i) != 0
}

/// Number of registers among the first `n` of a segment that `mask` selects.
pub open spec fn count_selected(mask: u32, n: nat) -> nat
    decreases n,
{
    if n == 0 {
        0
    } else {
        count_selected(mask, (n - 1) as nat) + if bit_set(mask, (n - 1) as u32) { 1nat } else { 0nat }
    }
}

/// The big-endian encodings of the registers among the first `n` of `regs` that
/// `mask` selects, in register order.
pub open spec fn pushed_bytes(regs: Seq<u64>, mask: u32, n: nat) -> Seq<u8>
    decreases n,
{
    if n == 0 {
        Seq::empty()
    } else {
        pushed_bytes(regs, mask, (n - 1) as nat) + if bit_set(mask, (n - 1) as u32) {
            word_be_bytes(regs[n - 1])
        } else {
            Seq::empty()
        }
    }
}

/// The program registers after popping `bytes` into the registers of the segment
/// starting at `base` that `mask` selects: the `j`-th selected register gets the
/// `j`-th word of `bytes`.
pub open spec fn popped_registers(regs: Seq<u64>, base: int, mask: u32, bytes: Seq<u8>) -> Seq<u64> {
    Seq::new(regs.len(), |k: int|
        if base <= k < base + 24 && bit_set(mask, (k - base) as u32) {
            let j = count_selected(mask, (k - base) as nat) as int;
            word_from_be(bytes.subrange(8 * j, 8 * j + 8))
        } else {
            regs[k]
        })
}

/// Encoded registers take eight bytes each.
pub proof fn lemma_pushed_len(regs: Seq<u64>, mask: u32, n: nat)
    ensures
        pushed_bytes(regs, mask, n).len() == 8 * count_selected(mask, n),
        count_selected(mask, n) <= n,
    decreases n,
{
    if n > 0 {
        lemma_pushed_len(regs, mask, (n - 1) as nat);
    }
}

/// The counts of selected registers grow with the number of registers considered.
pub proof fn lemma_count_monotone(mask: u32, a: nat, b: nat)
    requires
        a <= b,
    ensures
        count_selected(mask, a) <= count_selected(mask, b),
        a < b && bit_set(mask, a as u32) ==> count_selected(mask, a) < count_selected(mask, b),
    decreases b - a,
{
    if a < b {
        lemma_count_monotone(mask, a, (b - 1) as nat);
    }
}

/// The encoding of a selected register sits at its rank among the selected ones.
pub proof fn lemma_pushed_at(regs: Seq<u64>, mask: u32, n: nat, i: nat)
    requires
        i < n,
        bit_set(mask, i as u32),
    ensures
        8 * count_selected(mask, i) + 8 <= pushed_bytes(regs, mask, n).len(),
        pushed_bytes(regs, mask, n).subrange(8 * count_selected(mask, i) as int, 8 * count_selected(mask, i) as int + 8)
            == word_be_bytes(regs[i as int]),
    decreases n,
{
    lemma_pushed_len(regs, mask, n);
    lemma_pushed_len(regs, mask, (n - 1) as nat);
    let prev = pushed_bytes(regs, mask, (n - 1) as nat);
    let cur = pushed_bytes(regs, mask, n);
    if i == n - 1 {
        assert(cur.subrange(8 * count_selected(mask, i) as int, 8 * count_selected(mask, i) as int + 8)
            =~= word_be_bytes(regs[i as int]));
    } else {
        lemma_pushed_at(regs, mask, (n - 1) as nat, i);
        lemma_count_monotone(mask, i, (n - 1) as nat);
        lemma_count_monotone(mask, i + 1, (n - 1) as nat);
        assert(cur.subrange(8 * count_selected(mask, i) as int, 8 * count_selected(mask, i) as int + 8)
            =~= prev.subrange(8 * count_selected(mask, i) as int, 8 * count_selected(mask, i) as int + 8));
    }
}

/// Popping the bytes that a push of the same selection wrote restores every
/// selected register of the segment; the other registers keep their values.
pub proof fn lemma_pop_restores_pushed(saved: Seq<u64>, current: Seq<u64>, segment: ProgramRegistersSegment, mask: u32)
    requires
        saved.len() == 48,
        current.len() == 48,
    ensures
        ({
            let base = segment_base(segment);
            let popped = popped_registers(current, base, mask,
                pushed_bytes(saved.subrange(base, base + 24), mask, 24));
            &&& popped.len() == 48
            &&& forall|k: int| 0 <= k < 48 ==> #[trigger] popped[k] == if base <= k < base + 24
                && bit_set(mask, (k - base) as u32) { saved[k] } else { current[k] }
        }),
{
    let base = segment_base(segment);
    let seg = saved.subrange(base, base + 24);
    let bytes = pushed_bytes(seg, mask, 24);
    let popped = popped_registers(current, base, mask, bytes);
    assert forall|k: int| 0 <= k < 48 implies #[trigger] popped[k] == if base <= k < base + 24
        && bit_set(mask, (k - base) as u32) { saved[k] } else { current[k] } by {
        if base <= k < base + 24 && bit_set(mask, (k - base) as u32) {
            lemma_pushed_at(seg, mask, 24, (k - base) as nat);
            law_word_be_roundtrip(seg[k - base]);
        }
    }
}

/// The outcome of moving the stack pointer from `sp` to `new_sp`: the new stack
/// pointer, the new memory and whether it succeeded. The pointer may not go below
/// `ssp` nor above `hp`; the stack grows to cover it.
pub open spec fn stack_move(sp: u64, ssp: u64, hp: u64, new_sp: u64, m: MemoryModel) -> (u64, MemoryModel, Result<(), PanicReason>) {
    if new_sp < ssp {
        (sp, m, Err(PanicReason::MemoryOverflow))
    } else if new_sp > hp {
        (sp, m, Err(PanicReason::MemoryGrowthOverlap))
    } else {
        match m.grow_stack(new_sp as int) {
            Ok(m2) => (new_sp, m2, Ok(())),
            Err(e) => (new_sp, m, Err(e)),
        }
    }
}

/// The result of an instruction that advances the program counter last: the new
/// program counter and the result.
pub open spec fn finish_pc(pc: u64) -> (u64, SimpleResult<()>) {
    match pc_advanced(pc) {
        Ok(p) => (p, Ok(())),
        Err(e) => (pc, Err(PanicOrBug::Panic(e))),
    }
}

/// `a + b`, saturating at `u64::MAX`.
pub open spec fn sat_addr(a: int, b: int) -> int {
    if a + b > u64::MAX { u64::MAX as int } else { a + b }
}

/// The outcome of loading the byte at `addr` into a register holding `res`: the
/// new program counter, the register's value, and the result.
pub open spec fn load_outcome(m: MemoryModel, pc: u64, res: u64, addr: int, len: int, value: spec_fn(Seq<u8>) -> u64) -> (u64, u64, SimpleResult<()>) {
    match m.verify(addr, len) {
        Err(e) => (pc, res, Err(PanicOrBug::Panic(e))),
        Ok(_) => {
            let (p, r) = finish_pc(pc);
            (p, value(m.read(addr, addr + len)), r)
        },
    }
}

/// The outcome of writing `data` at `addr` with ownership `owner`: the new program
/// counter and memory, and the result.
pub open spec fn store_outcome(m: MemoryModel, owner: OwnershipRegisters, pc: u64, addr: int, data: Seq<u8>) -> (u64, MemoryModel, SimpleResult<()>) {
    match m.verify(addr, data.len() as int) {
        Err(e) => (pc, m, Err(PanicOrBug::Panic(e))),
        Ok(_) => if !owner.owns(addr, addr + data.len()) {
            (pc, m, Err(PanicOrBug::Panic(PanicReason::MemoryOwnership)))
        } else {
            let (p, r) = finish_pc(pc);
            (p, m.write(addr, data), r)
        },
    }
}

/// The outcome of comparing the `d` bytes at `b` and at `c` into a register
/// holding `res`.
pub open spec fn memeq_outcome(m: MemoryModel, pc: u64, res: u64, b: int, c: int, d: int) -> (u64, u64, SimpleResult<()>) {
    match m.verify(b, d) {
        Err(e) => (pc, res, Err(PanicOrBug::Panic(e))),
        Ok(_) => match m.verify(c, d) {
            Err(e) => (pc, res, Err(PanicOrBug::Panic(e))),
            Ok(_) => {
                let (p, r) = finish_pc(pc);
                (p, if m.read(b, b + d) == m.read(c, c + d) { 1u64 } else { 0u64 }, r)
            },
        },
    }
}

/// The outcome of a copy instruction.
pub open spec fn memcopy_outcome(m: MemoryModel, owner: OwnershipRegisters, pc: u64, dst: int, src: int, length: int) -> (u64, MemoryModel, SimpleResult<()>) {
    match m.memcopy(dst, src, length, owner) {
        Err(e) => (pc, m, Err(PanicOrBug::Panic(e))),
        Ok(m2) => {
            let (p, r) = finish_pc(pc);
            (p, m2, r)
        },
    }
}

/// The first byte of a sequence, as a word.
pub open spec fn first_byte(s: Seq<u8>) -> u64 {
    s[0] as u64
}

/// The outcome of pushing the selected registers of a segment: the new stack
/// pointer, program counter and memory, and the result.
pub open spec fn push_outcome(
    regs: Seq<u64>,
    segment: ProgramRegistersSegment,
    mask: u32,
    sp: u64,
    ssp: u64,
    hp: u64,
    pc: u64,
    m: MemoryModel,
) -> (u64, u64, MemoryModel, SimpleResult<()>) {
    let base = segment_base(segment);
    let bytes = pushed_bytes(regs.subrange(base, base + 24), mask, 24);
    let new_sp = if sp + bytes.len() > u64::MAX { u64::MAX } else { (sp + bytes.len()) as u64 };
    let (s, m1, res) = stack_move(sp, ssp, hp, new_sp, m);
    match res {
        Err(e) => (s, pc, m1, Err(PanicOrBug::Panic(e))),
        Ok(()) => match m1.verify(sp as int, bytes.len() as int) {
            Err(e) => (s, pc, m1, Err(PanicOrBug::Panic(e))),
            Ok(_) => {
                let (p, r) = finish_pc(pc);
                (s, p, m1.write(sp as int, bytes), r)
            },
        },
    }
}

/// The outcome of popping into the selected registers of a segment: the new stack
/// pointer, program counter, program registers and memory, and the result.
pub open spec fn pop_outcome(
    regs: Seq<u64>,
    segment: ProgramRegistersSegment,
    mask: u32,
    sp: u64,
    ssp: u64,
    hp: u64,
    pc: u64,
    m: MemoryModel,
) -> (u64, u64, Seq<u64>, MemoryModel, SimpleResult<()>) {
    let base = segment_base(segment);
    let size = 8 * count_selected(mask, 24);
    if sp < size {
        (sp, pc, regs, m, Err(PanicOrBug::Panic(PanicReason::MemoryOverflow)))
    } else {
        let new_sp = (sp - size) as u64;
        let (s, m1, res) = stack_move(sp, ssp, hp, new_sp, m);
        match res {
            Err(e) => (s, pc, regs, m1, Err(PanicOrBug::Panic(e))),
            Ok(()) => match m1.verify(new_sp as int, size as int) {
                Err(e) => (s, pc, regs, m1, Err(PanicOrBug::Panic(e))),
                Ok(_) => {
                    let (p, r) = finish_pc(pc);
                    (s, p, popped_registers(regs, base, mask, m1.read(new_sp as int, new_sp + size)), m1, r)
                },
            },
        }
    }
}

/// Popping a selection of registers right after pushing the same selection gives
/// back, in every selected register, the value it had when pushed; the other
/// registers keep their values, and the stack pointer and memory are as the push
/// left them, but for the stack pointer, which is back where it was.
pub proof fn law_pop_after_push(
    saved: Seq<u64>,
    current: Seq<u64>,
    segment: ProgramRegistersSegment,
    mask: u32,
    sp: u64,
    ssp: u64,
    hp: u64,
    pc: u64,
    m: MemoryModel,
)
    requires
        saved.len() == 48,
        current.len() == 48,
        m.valid(),
        ssp <= sp,
        push_outcome(saved, segment, mask, sp, ssp, hp, pc, m).3 is Ok,
    ensures
        ({
            let (sp1, pc1, m1, _) = push_outcome(saved, segment, mask, sp, ssp, hp, pc, m);
            let (sp2, pc2, regs2, m2, r2) = pop_outcome(current, segment, mask, sp1, ssp, hp, pc1, m1);
            let base = segment_base(segment);
            &&& sp2 == sp
            &&& m2 == m1
            &&& (pc2, r2) == finish_pc(pc1)
            &&& regs2.len() == 48
            &&& forall|k: int| 0 <= k < 48 ==> #[trigger] regs2[k] == if base <= k < base + 24
                && bit_set(mask, (k - base) as u32) { saved[k] } else { current[k] }
        }),
{
    let base = segment_base(segment);
    let seg = saved.subrange(base, base + 24);
    let bytes = pushed_bytes(seg, mask, 24);
    lemma_pushed_len(seg, mask, 24);
    let new_sp = (sp + bytes.len()) as u64;
    let (s1, m1, res) = stack_move(sp, ssp, hp, new_sp, m);
    let m2 = m1.write(sp as int, bytes);
    assert(m1.valid());
    m1.law_write_read(sp as int, bytes);
    assert(m2.grow_stack(sp as int) == Ok::<MemoryModel, PanicReason>(m2));
    lemma_pop_restores_pushed(saved, current, segment, mask);
}

/// Moves the stack pointer to `new_sp`, checking that it stays between `ssp` and
/// `hp`, and grows the stack to cover it.
pub fn try_update_stack_pointer(sp: &mut u64, ssp: u64, hp: u64, new_sp: u64, memory: &mut MemoryInstance) -> (r: SimpleResult<()>)
    requires
        old(memory).inv(),
    ensures
        final(memory).inv(),
        final(memory).raw_heap() == old(memory).raw_heap(),
        ({
            let (s, m, res) = stack_move(*old(sp), ssp, hp, new_sp, old(memory)@);
            &&& *final(sp) == s
            &&& final(memory)@ == m
            &&& match res {
                Ok(()) => r == Ok::<(), PanicOrBug>(()),
                Err(e) => r == Err::<(), PanicOrBug>(PanicOrBug::Panic(e)),
            }
        }),
{
    if new_sp < ssp {
        Err(PanicOrBug::Panic(PanicReason::MemoryOverflow))
    } else if new_sp > hp {
        Err(PanicOrBug::Panic(PanicReason::MemoryGrowthOverlap))
    } else {
        *sp = new_sp;
        match memory.grow_stack(new_sp) {
            Ok(()) => Ok(()),
            Err(e) => Err(PanicOrBug::Panic(e)),
        }
    }
}

/// Moves the stack pointer by the operation `f` applied to it and `v`, failing
/// with `MemoryOverflow` when `f` reports an overflow, then advances the program
/// counter.
pub fn stack_pointer_overflow<F>(
    sp: &mut u64,
    ssp: u64,
    hp: u64,
    pc: &mut u64,
    f: F,
    v: u64,
    memory: &mut MemoryInstance,
) -> (r: SimpleResult<()>)
    where
        F: FnOnce(u64, u64) -> (u64, bool),
    requires
        old(memory).inv(),
        call_requires(f, (*old(sp), v)),
    ensures
        final(memory).inv(),
        final(memory).raw_heap() == old(memory).raw_heap(),
        exists|res: (u64, bool)| #[trigger] call_ensures(f, (*old(sp), v), res) && if res.1 {
            r == Err::<(), PanicOrBug>(PanicOrBug::Panic(PanicReason::MemoryOverflow))
                && *final(sp) == *old(sp) && final(memory)@ == old(memory)@ && *final(pc) == *old(pc)
        } else {
            let (s, m, res2) = stack_move(*old(sp), ssp, hp, res.0, old(memory)@);
            &&& *final(sp) == s
            &&& final(memory)@ == m
            &&& match res2 {
                Err(e) => r == Err::<(), PanicOrBug>(PanicOrBug::Panic(e)) && *final(pc) == *old(pc),
                Ok(()) => match pc_advanced(*old(pc)) {
                    Ok(p) => r == Ok::<(), PanicOrBug>(()) && *final(pc) == p,
                    Err(e) => r == Err::<(), PanicOrBug>(PanicOrBug::Panic(e)) && *final(pc) == *old(pc),
                },
            }
        },
{
    let (new_sp, overflow) = f(*sp, v);
    if overflow {
        return Err(PanicOrBug::Panic(PanicReason::MemoryOverflow));
    }
    try_update_stack_pointer(sp, ssp, hp, new_sp, memory)?;
    inc_pc_result(pc)
}

/// Index of the first register of a segment among the program registers.
fn segment_start(segment: ProgramRegistersSegment) -> (r: usize)
    ensures
        r == segment_base(segment),
{
    match segment {
        ProgramRegistersSegment::Low => 0,
        ProgramRegistersSegment::High => 24,
    }
}

/// Number of registers of a segment that `mask` selects.
fn selected_count(mask: u32) -> (r: u64)
    ensures
        r == count_selected(mask, 24),
        r <= 24,
{
    let mut count: u64 = 0;
    let mut i: u32 = 0;
    while i < 24
        invariant
            i <= 24,
            count == count_selected(mask, i as nat),
            count <= i,
        decreases 24 - i,
    {
        if mask & (1u32 << i) != 0 {
            count = count + 1;
        }
        i = i + 1;
    }
    count
}

/// Pushes the registers of `segment` that `bitmask` selects onto the stack, in
/// register order, each as eight big-endian bytes, then advances the program
/// counter. The stack pointer moves first; that move is the only check that can fail
/// on a consistent VM.
pub fn push_selected_registers(
    memory: &mut MemoryInstance,
    sp: &mut u64,
    ssp: u64,
    hp: u64,
    pc: &mut u64,
    program_regs: &ProgramRegisters,
    segment: ProgramRegistersSegment,
    bitmask: u32,
) -> (r: SimpleResult<()>)
    requires
        old(memory).inv(),
    ensures
        final(memory).inv(),
        final(memory).raw_heap().len() == old(memory).raw_heap().len(),
        (*final(sp), *final(pc), final(memory)@, r)
            == push_outcome(program_regs.0@, segment, bitmask, *old(sp), ssp, hp, *old(pc), old(memory)@),
{
    let base = segment_start(segment);
    let ghost seg = program_regs.0@.subrange(base as int, base + 24);
    let mut bytes: Vec<u8> = Vec::new();
    let mut i: u32 = 0;
    while i < 24
        invariant
            i <= 24,
            base == segment_base(segment),
            seg == program_regs.0@.subrange(base as int, base + 24),
            bytes@ == pushed_bytes(seg, bitmask, i as nat),
        decreases 24 - i,
    {
        if bitmask & (1u32 << i) != 0 {
            let encoded = word_to_be_bytes(program_regs.0[base + i as usize]);
            bytes.extend_from_slice(encoded.as_slice());
            proof {
                assert(bytes@ =~= pushed_bytes(seg, bitmask, (i + 1) as nat));
            }
        } else {
            proof {
                assert(bytes@ =~= pushed_bytes(seg, bitmask, (i + 1) as nat));
            }
        }
        i = i + 1;
    }
    proof {
        lemma_pushed_len(seg, bitmask, 24);
    }
    let write_size = bytes.len() as u64;
    let write_at = *sp;
    let new_sp = write_at.saturating_add(write_size);
    try_update_stack_pointer(sp, ssp, hp, new_sp, memory)?;
    match memory.write_noownerchecks(write_at, bytes.as_slice()) {
        Ok(()) => {},
        Err(e) => return Err(PanicOrBug::Panic(e)),
    }
    inc_pc_result(pc)
}

/// Pops words from the stack into the registers of `segment` that `bitmask`
/// selects, the lowest selected register from the lowest address, then advances the
/// program counter.
pub fn pop_selected_registers(
    memory: &mut MemoryInstance,
    sp: &mut u64,
    ssp: u64,
    hp: u64,
    pc: &mut u64,
    program_regs: &mut ProgramRegisters,
    segment: ProgramRegistersSegment,
    bitmask: u32,
) -> (r: SimpleResult<()>)
    requires
        old(memory).inv(),
    ensures
        final(memory).inv(),
        final(memory).raw_heap() == old(memory).raw_heap(),
        (*final(sp), *final(pc), final(program_regs).0@, final(memory)@, r)
            == pop_outcome(old(program_regs).0@, segment, bitmask, *old(sp), ssp, hp, *old(pc), old(memory)@),
{
    let count = selected_count(bitmask);
    let size_in_stack = count * 8;
    let new_sp = match sp.checked_sub(size_in_stack) {
        Some(n) => n,
        None => return Err(PanicOrBug::Panic(PanicReason::MemoryOverflow)),
    };
    try_update_stack_pointer(sp, ssp, hp, new_sp, memory)?;
    let bytes = match memory.read(new_sp, size_in_stack) {
        Ok(b) => b,
        Err(e) => return Err(PanicOrBug::Panic(e)),
    };
    proof {
        memory.lemma_valid();
        memory@.lemma_read_len(new_sp as int, size_in_stack as int);
    }
    let base = segment_start(segment);
    let ghost old_regs = program_regs.0@;
    let mut i: u32 = 0;
    let mut j: usize = 0;
    while i < 24
        invariant
            i <= 24,
            base == segment_base(segment),
            bytes@.len() == size_in_stack,
            size_in_stack == 8 * count_selected(bitmask, 24),
            j == count_selected(bitmask, i as nat),
            program_regs.0@.len() == 48,
            old_regs.len() == 48,
            forall|k: int| 0 <= k < 48 ==> #[trigger] program_regs.0@[k] == if base <= k < base + i
                && bit_set(bitmask, (k - base) as u32) {
                popped_registers(old_regs, base as int, bitmask, bytes@)[k]
            } else {
                old_regs[k]
            },
        decreases 24 - i,
    {
        proof {
            lemma_count_monotone(bitmask, i as nat, 24);
            lemma_count_monotone(bitmask, (i + 1) as nat, 24);
            lemma_pushed_len(old_regs, bitmask, i as nat);
        }
        let ghost regs_before = program_regs.0@;
        if bitmask & (1u32 << i) != 0 {
            let mut buf = [0u8; 8];
            let mut t: usize = 0;
            while t < 8
                invariant
                    t <= 8,
                    j <= 24,
                    8 * j + 8 <= bytes@.len(),
                    forall|q: int| 0 <= q < t ==> buf@[q] == bytes@[8 * j + q],
                decreases 8 - t,
            {
                buf[t] = bytes[8 * j + t];
                t = t + 1;
            }
            proof {
                assert(buf@ =~= bytes@.subrange(8 * j as int, 8 * j + 8));
            }
            program_regs.0[base + i as usize] = word_from_be_bytes(buf);
            proof {
                let k = base + i;
                assert(popped_registers(old_regs, base as int, bitmask, bytes@)[k as int]
                    == word_from_be(bytes@.subrange(8 * j as int, 8 * j + 8)));
            }
            j = j + 1;
        }
        proof {
            assert forall|k: int| 0 <= k < 48 implies #[trigger] program_regs.0@[k] == if base <= k < base + i + 1
                && bit_set(bitmask, (k - base) as u32) {
                popped_registers(old_regs, base as int, bitmask, bytes@)[k]
            } else {
                old_regs[k]
            } by {
                if k != base + i {
                    assert(program_regs.0@[k] == regs_before[k]);
                }
            }
        }
        i = i + 1;
    }
    proof {
        assert(program_regs.0@ =~= popped_registers(old_regs, base as int, bitmask, bytes@));
    }
    inc_pc_result(pc)
}

/// Loads into `result` the byte at address `b + c` (saturating), then advances the
/// program counter.
pub fn load_byte(memory: &MemoryInstance, pc: &mut u64, result: &mut u64, b: u64, c: u64) -> (r: SimpleResult<()>)
    requires
        memory.inv(),
    ensures
        (*final(pc), *final(result), r)
            == load_outcome(memory@, *old(pc), *old(result), sat_addr(b as int, c as int), 1, |s: Seq<u8>| first_byte(s)),
{
    let bytes: [u8; 1] = match memory.read_bytes(b.saturating_add(c)) {
        Ok(x) => x,
        Err(e) => return Err(PanicOrBug::Panic(e)),
    };
    *result = bytes[0] as u64;
    inc_pc_result(pc)
}

/// Loads into `result` the word at address `b + 8 * c`, then advances the program
/// counter.
pub fn load_word(memory: &MemoryInstance, pc: &mut u64, result: &mut u64, b: u64, c: u64) -> (r: SimpleResult<()>)
    requires
        memory.inv(),
        c < 4096,
    ensures
        b + 8 * c > u64::MAX ==> r == Err::<(), PanicOrBug>(PanicOrBug::Panic(PanicReason::MemoryOverflow))
            && *final(result) == *old(result) && *final(pc) == *old(pc),
        b + 8 * c <= u64::MAX ==> (*final(pc), *final(result), r)
            == load_outcome(memory@, *old(pc), *old(result), b + 8 * c, 8, |s: Seq<u8>| word_from_be(s)),
{
    let offset = c * (WORD_SIZE as u64);
    let addr = match b.checked_add(offset) {
        Some(a) => a,
        None => return Err(PanicOrBug::Panic(PanicReason::MemoryOverflow)),
    };
    let bytes: [u8; 8] = match memory.read_bytes(addr) {
        Ok(x) => x,
        Err(e) => return Err(PanicOrBug::Panic(e)),
    };
    *result = word_from_be_bytes(bytes);
    inc_pc_result(pc)
}

/// Stores the low byte of `b` at address `a + c` (saturating), if owned, then
/// advances the program counter.
pub fn store_byte(memory: &mut MemoryInstance, owner: OwnershipRegisters, pc: &mut u64, a: u64, b: u64, c: u64) -> (r: SimpleResult<()>)
    requires
        old(memory).inv(),
    ensures
        final(memory).inv(),
        final(memory).raw_heap().len() == old(memory).raw_heap().len(),
        (*final(pc), final(memory)@, r)
            == store_outcome(old(memory)@, owner, *old(pc), sat_addr(a as int, c as int), seq![(b % 256) as u8]),
{
    let byte = (b % 256) as u8;
    let data: [u8; 1] = [byte];
    proof {
        assert(data@ =~= seq![(b % 256) as u8]);
    }
    match memory.write_bytes(owner, a.saturating_add(c), data) {
        Ok(()) => {},
        Err(e) => return Err(PanicOrBug::Panic(e)),
    }
    inc_pc_result(pc)
}

/// Stores the word `b` at address `a + 8 * c` (saturating), if owned, then
/// advances the program counter.
pub fn store_word(memory: &mut MemoryInstance, owner: OwnershipRegisters, pc: &mut u64, a: u64, b: u64, c: u64) -> (r: SimpleResult<()>)
    requires
        old(memory).inv(),
        c < 4096,
    ensures
        final(memory).inv(),
        final(memory).raw_heap().len() == old(memory).raw_heap().len(),
        (*final(pc), final(memory)@, r)
            == store_outcome(old(memory)@, owner, *old(pc), sat_addr(a as int, 8 * c), word_be_bytes(b)),
{
    let offset = c * (WORD_SIZE as u64);
    let addr = a.saturating_add(offset);
    match memory.write_bytes(owner, addr, word_to_be_bytes(b)) {
        Ok(()) => {},
        Err(e) => return Err(PanicOrBug::Panic(e)),
    }
    inc_pc_result(pc)
}

/// Grows the heap by `amount` bytes, moving the heap pointer register `hp`, then
/// advances the program counter.
pub fn malloc(hp: &mut u64, sp: u64, pc: &mut u64, amount: u64, memory: &mut MemoryInstance) -> (r: SimpleResult<()>)
    requires
        old(memory).inv(),
    ensures
        final(memory).inv(),
        ({
            let m = old(memory)@;
            if amount > m.hp {
                r == Err::<(), PanicOrBug>(PanicOrBug::Panic(PanicReason::MemoryOverflow))
                    && final(memory)@ == m && *final(hp) == *old(hp) && *final(pc) == *old(pc)
                    && final(memory).raw_heap() == old(memory).raw_heap()
            } else if m.hp - amount < sp {
                r == Err::<(), PanicOrBug>(PanicOrBug::Panic(PanicReason::MemoryGrowthOverlap))
                    && final(memory)@ == m && *final(hp) == *old(hp) && *final(pc) == *old(pc)
                    && final(memory).raw_heap() == old(memory).raw_heap()
            } else {
                let new_hp = m.hp - amount;
                &&& *final(hp) == new_hp
                &&& final(memory)@ == old(memory).heap_grown(new_hp)
                &&& match pc_advanced(*old(pc)) {
                    Ok(p) => r == Ok::<(), PanicOrBug>(()) && *final(pc) == p,
                    Err(e) => r == Err::<(), PanicOrBug>(PanicOrBug::Panic(e)) && *final(pc) == *old(pc),
                }
            }
        }),
{
    let ghost m = memory@;
    proof {
        memory.lemma_valid();
    }
    match memory.grow_heap_by(sp, hp, amount) {
        Ok(()) => {},
        Err(e) => return Err(PanicOrBug::Panic(e)),
    }
    inc_pc_result(pc)
}

/// Zeroes `b` bytes from address `a`, if they are accessible and owned, then
/// advances the program counter.
pub fn memclear(memory: &mut MemoryInstance, owner: OwnershipRegisters, pc: &mut u64, a: u64, b: u64) -> (r: SimpleResult<()>)
    requires
        old(memory).inv(),
    ensures
        final(memory).inv(),
        final(memory).raw_heap().len() == old(memory).raw_heap().len(),
        (*final(pc), final(memory)@, r) == store_outcome(old(memory)@, owner, *old(pc), a as int, zeros(b as int)),
{
    let range = match memory.verify(a, b) {
        Ok(range) => range,
        Err(e) => return Err(PanicOrBug::Panic(e)),
    };
    match owner.verify_ownership(&range) {
        Ok(()) => {},
        Err(e) => return Err(PanicOrBug::Panic(e)),
    }
    let len = range.len();
    let zero_bytes: Vec<u8> = vec![0u8; len];
    proof {
        assert(zero_bytes@ =~= zeros(b as int));
    }
    memory.write_range(range.start(), zero_bytes.as_slice());
    inc_pc_result(pc)
}

/// Copies `length` bytes from `src` to `dst`, as `MemoryInstance::memcopy` does,
/// then advances the program counter.
pub fn memcopy(memory: &mut MemoryInstance, owner: OwnershipRegisters, pc: &mut u64, dst: u64, src: u64, length: u64) -> (r: SimpleResult<()>)
    requires
        old(memory).inv(),
    ensures
        final(memory).inv(),
        final(memory).raw_heap().len() == old(memory).raw_heap().len(),
        (*final(pc), final(memory)@, r) == memcopy_outcome(old(memory)@, owner, *old(pc), dst as int, src as int, length as int),
        old(memory)@.memcopy(dst as int, src as int, length as int, owner) is Err
            ==> final(memory).raw_heap() == old(memory).raw_heap(),
{
    match memory.memcopy(dst, src, length, owner) {
        Ok(()) => {},
        Err(e) => return Err(PanicOrBug::Panic(e)),
    }
    inc_pc_result(pc)
}

/// Sets `result` to 1 if the `d` bytes at `b` equal the `d` bytes at `c`, else to
/// 0, then advances the program counter.
pub fn memeq(memory: &MemoryInstance, result: &mut u64, pc: &mut u64, b: u64, c: u64, d: u64) -> (r: SimpleResult<()>)
    requires
        memory.inv(),
    ensures
        (*final(pc), *final(result), r) == memeq_outcome(memory@, *old(pc), *old(result), b as int, c as int, d as int),
{
    let x = match memory.read(b, d) {
        Ok(x) => x,
        Err(e) => return Err(PanicOrBug::Panic(e)),
    };
    let y = match memory.read(c, d) {
        Ok(y) => y,
        Err(e) => return Err(PanicOrBug::Panic(e)),
    };
    *result = if crate::memory::bytes_eq(x, y) { 1 } else { 0 };
    inc_pc_result(pc)
}

/// A word stored at an address that the context owns reads back as the same word:
/// the load after the store succeeds when the program counter can advance again, and
/// gives the stored word.
pub proof fn law_load_after_store(m: MemoryModel, owner: OwnershipRegisters, pc: u64, addr: int, w: u64, res: u64)
    requires
        m.valid(),
        0 <= addr,
        store_outcome(m, owner, pc, addr, word_be_bytes(w)).2 is Ok,
    ensures
        ({
            let (pc1, m1, _) = store_outcome(m, owner, pc, addr, word_be_bytes(w));
            let (pc2, v, r) = load_outcome(m1, pc1, res, addr, 8, |s: Seq<u8>| word_from_be(s));
            &&& m1.valid()
            &&& r == finish_pc(pc1).1
            &&& v == w
        }),
{
    law_word_be_roundtrip(w);
    m.law_write_read(addr, word_be_bytes(w));
}

} // verus!
