use crate::bytes::{word_be_bytes, word_from_be};
use crate::consts::{REG_CGAS, REG_GGAS, REG_HP, REG_PC, REG_SP, REG_SSP};
use crate::error::{PanicOrBug, PanicReason, SimpleResult};
use crate::flow::{JumpArgs, JumpMode};
use crate::gas::GasCosts;
use crate::interpreter::{
    alu_checked, alu_cleared, alu_overflowed, alu_set_to, charged, flagged, jumped, stack_moved, user_reg_set, Interpreter,
};
use crate::jit::{instruction_is_valid, is_instruction};
use crate::memory::{zeros, MemoryModel};
use crate::memory_ops::{
    finish_pc, first_byte, load_outcome, memcopy_outcome, memeq_outcome, pop_outcome, push_outcome, sat_addr,
    store_outcome, ProgramRegistersSegment,
};
use crate::opcode::{
    imm06, imm06_of, imm12, imm12_of, imm18, imm18_of, imm24, imm24_of, opcode, opcode_class, opcode_info, opcode_of, ra,
    rb, rc, rd, reg_a, reg_b, reg_c, reg_d, word_from_bytes, word_of, ADD, ADDI, ALOC, AND, ANDI, CFE, CFEI, CFS, CFSI, DIV,
    DIVI, EQ, FLAG, GT, JAL, JI, JMP, JMPB, JMPF, JNE, JNEB, JNEF, JNEI, JNZB, JNZF, JNZI, LB, LT, LW, MCL, MCLI, MCP, MCPI,
    MEQ, MOD, MODI, MOVE, MOVI, MUL, MULI, NOOP, NOT, OR, ORI, POPH, POPL, PSHH, PSHL, SB, SLL, SLLI, SRL, SRLI, SUB, SUBI,
    SW, XOR, XORI,
};
use crate::ownership::OwnershipRegisters;
use crate::state::ExecuteState;
use vstd::prelude::*;

verus! {

/// What an instruction changes: the registers, the memory and its result.
pub type Step = (Seq<u64>, MemoryModel, SimpleResult<()>);

/// `Proceed` after an instruction that succeeded, its error otherwise.
pub open spec fn proceed(r: SimpleResult<()>) -> SimpleResult<ExecuteState> {
    match r {
        Ok(()) => Ok(ExecuteState::Proceed),
        Err(e) => Err(e),
    }
}

/// `Proceed` after an instruction that succeeded, its error otherwise.
pub fn proceed_after(r: SimpleResult<()>) -> (s: SimpleResult<ExecuteState>)
    ensures
        s == proceed(r),
{
    match r {
        Ok(()) => Ok(ExecuteState::Proceed),
        Err(e) => Err(e),
    }
}

/// The registers, memory and result of an instruction that first charges `gas` and
/// then, if the charge succeeded, takes `step` from the charged registers.
pub open spec fn after_charge(
    regs: Seq<u64>,
    m: MemoryModel,
    gas: int,
    step: spec_fn(Seq<u64>) -> Step,
) -> (Seq<u64>, MemoryModel, SimpleResult<ExecuteState>) {
    let (c, res) = charged(regs, gas);
    match res {
        Err(e) => (c, m, Err(e)),
        Ok(()) => {
            let (r2, m2, res2) = step(c);
            (r2, m2, proceed(res2))
        },
    }
}

/// A step that changes only registers.
pub open spec fn regs_only(t: (Seq<u64>, SimpleResult<()>), m: MemoryModel) -> Step {
    (t.0, m, t.1)
}

/// The ownership registers of a context with registers `c` whose caller's heap
/// pointer is `prev_hp`.
pub open spec fn owner_of(c: Seq<u64>, prev_hp: u64) -> OwnershipRegisters {
    OwnershipRegisters { sp: c[REG_SP as int], ssp: c[REG_SSP as int], hp: c[REG_HP as int], prev_hp }
}

/// A write of `data` at `addr` by the context with registers `c`.
pub open spec fn stored(c: Seq<u64>, m: MemoryModel, prev_hp: u64, addr: int, data: Seq<u8>) -> Step {
    let (pc, m2, res) = store_outcome(m, owner_of(c, prev_hp), c[REG_PC as int], addr, data);
    (c.update(REG_PC as int, pc), m2, res)
}

/// A copy of `len` bytes from `src` to `dst` by the context with registers `c`.
pub open spec fn copied(c: Seq<u64>, m: MemoryModel, prev_hp: u64, dst: int, src: int, len: int) -> Step {
    let (pc, m2, res) = memcopy_outcome(m, owner_of(c, prev_hp), c[REG_PC as int], dst, src, len);
    (c.update(REG_PC as int, pc), m2, res)
}

/// A read of `len` bytes at `addr` into register `ra`, decoded by `value`.
pub open spec fn loaded(c: Seq<u64>, m: MemoryModel, ra: u8, addr: int, len: int, value: spec_fn(Seq<u8>) -> u64) -> Step {
    if ra < 16 {
        (c, m, Err(PanicOrBug::Panic(PanicReason::ReservedRegisterNotWritable)))
    } else {
        let (pc, v, res) = load_outcome(m, c[REG_PC as int], c[ra as int], addr, len, value);
        (c.update(ra as int, v).update(REG_PC as int, pc), m, res)
    }
}

/// A comparison of `len` bytes at `b` and `cc` into register `ra`.
pub open spec fn compared(c: Seq<u64>, m: MemoryModel, ra: u8, b: int, cc: int, len: int) -> Step {
    if ra < 16 {
        (c, m, Err(PanicOrBug::Panic(PanicReason::ReservedRegisterNotWritable)))
    } else {
        let (pc, v, res) = memeq_outcome(m, c[REG_PC as int], c[ra as int], b, cc, len);
        (c.update(ra as int, v).update(REG_PC as int, pc), m, res)
    }
}

/// A push of the registers of `segment` that `mask` selects.
pub open spec fn pushed(c: Seq<u64>, m: MemoryModel, segment: ProgramRegistersSegment, mask: u32) -> Step {
    let (sp, pc, m2, res) = push_outcome(c.subrange(16, 64), segment, mask, c[REG_SP as int], c[REG_SSP as int],
        c[REG_HP as int], c[REG_PC as int], m);
    (c.update(REG_SP as int, sp).update(REG_PC as int, pc), m2, res)
}

/// A pop into the registers of `segment` that `mask` selects.
pub open spec fn popped(c: Seq<u64>, m: MemoryModel, segment: ProgramRegistersSegment, mask: u32) -> Step {
    let (sp, pc, prog, m2, res) = pop_outcome(c.subrange(16, 64), segment, mask, c[REG_SP as int], c[REG_SSP as int],
        c[REG_HP as int], c[REG_PC as int], m);
    ((c.subrange(0, 16) + prog).update(REG_SP as int, sp).update(REG_PC as int, pc), m2, res)
}

/// `a + b`, or `None` when it overflows a word.
pub open spec fn add_word(a: u64, b: u64) -> Option<u64> {
    if a + b > u64::MAX { None } else { Some((a + b) as u64) }
}

/// `a - b`, or `None` when it goes below zero.
pub open spec fn sub_word(a: u64, b: u64) -> Option<u64> {
    if a < b { None } else { Some((a - b) as u64) }
}

/// A conditional jump of `mode` to `dynamic` plus `fixed`.
pub open spec fn jump_args(condition: bool, mode: JumpMode, dynamic: u64, fixed: u64) -> JumpArgs {
    JumpArgs { condition, mode, dynamic, fixed }
}

/// The memory grown by `n` bytes of heap and the registers after it, from registers
/// `c`: the heap pointer moves down and the program counter advances.
pub open spec fn allocated<T>(c: Seq<u64>, vm: Interpreter<T>, n: u64) -> Step {
    let m = vm.spec_memory()@;
    if n > m.hp {
        (c, m, Err(PanicOrBug::Panic(PanicReason::MemoryOverflow)))
    } else if m.hp - n < c[REG_SP as int] {
        (c, m, Err(PanicOrBug::Panic(PanicReason::MemoryGrowthOverlap)))
    } else {
        let new_hp = (m.hp - n) as u64;
        let (p, res) = finish_pc(c[REG_PC as int]);
        (c.update(REG_HP as int, new_hp).update(REG_PC as int, p), vm.spec_memory().heap_grown(new_hp as int), res)
    }
}

/// A read of the word at `b + 8 * imm` into register `ra`.
pub open spec fn loaded_word(c: Seq<u64>, m: MemoryModel, ra: u8, b: u64, imm: u64) -> Step {
    if ra < 16 {
        (c, m, Err(PanicOrBug::Panic(PanicReason::ReservedRegisterNotWritable)))
    } else if b + 8 * imm > u64::MAX {
        (c, m, Err(PanicOrBug::Panic(PanicReason::MemoryOverflow)))
    } else {
        loaded(c, m, ra, b + 8 * imm, 8, |s: Seq<u8>| word_from_be(s))
    }
}

/// What the arithmetic and logic instruction with operation code `op` charges, or
/// `None` for other operations.
pub open spec fn alu_cost(op: u8, g: GasCosts) -> Option<u64> {
    if op == ADD { Some(g.add) }
    else if op == ADDI { Some(g.addi) }
    else if op == SUB { Some(g.sub) }
    else if op == SUBI { Some(g.subi) }
    else if op == MUL { Some(g.mul) }
    else if op == MULI { Some(g.muli) }
    else if op == DIV { Some(g.div) }
    else if op == DIVI { Some(g.divi) }
    else if op == MOD { Some(g.mod_op) }
    else if op == MODI { Some(g.modi) }
    else if op == AND { Some(g.and_op) }
    else if op == ANDI { Some(g.andi) }
    else if op == OR { Some(g.or_op) }
    else if op == ORI { Some(g.ori) }
    else if op == XOR { Some(g.xor) }
    else if op == XORI { Some(g.xori) }
    else if op == NOT { Some(g.not_op) }
    else if op == MOVE { Some(g.move_op) }
    else if op == MOVI { Some(g.movi) }
    else if op == EQ { Some(g.eq_op) }
    else if op == LT { Some(g.lt) }
    else if op == GT { Some(g.gt) }
    else if op == SLL { Some(g.sll) }
    else if op == SLLI { Some(g.slli) }
    else if op == SRL { Some(g.srl) }
    else if op == SRLI { Some(g.srli) }
    else if op == NOOP { Some(g.noop) }
    else { None }
}

/// `b - c` as an unsigned 128-bit subtraction that wraps below zero.
pub open spec fn sub128(b: u64, c: u64) -> u128 {
    if b >= c { (b - c) as u128 } else { (0x1_0000_0000_0000_0000_0000_0000_0000_0000int + b - c) as u128 }
}

/// `b` shifted left by `c` bits, zero when `c` is at least the word size.
pub open spec fn shl_or_zero(b: u64, c: u64) -> u64 {
    if c < 64 { b << c } else { 0 }
}

/// `b` shifted right by `c` bits, zero when `c` is at least the word size.
pub open spec fn shr_or_zero(b: u64, c: u64) -> u64 {
    if c < 64 { b >> c } else { 0 }
}

/// One if `p` holds, else zero.
pub open spec fn bit(p: bool) -> u64 {
    if p { 1 } else { 0 }
}

/// What the arithmetic or logic instruction `word` does to the registers `x`: sums,
/// differences and products keep their high word in the overflow register, divisions
/// and remainders by zero are arithmetic errors, the other operations set their
/// destination and clear the overflow and error registers, and NOOP only clears them.
pub open spec fn alu_step(x: Seq<u64>, word: u32) -> (Seq<u64>, SimpleResult<()>) {
    let op = opcode_of(word);
    let a = reg_a(word) as int;
    let vb = x[reg_b(word) as int];
    let vc = x[reg_c(word) as int];
    let i = imm12(word) as u64;
    if op == ADD { alu_overflowed(x, a, (vb + vc) as u128) }
    else if op == ADDI { alu_overflowed(x, a, (vb + i) as u128) }
    else if op == SUB { alu_overflowed(x, a, sub128(vb, vc)) }
    else if op == SUBI { alu_overflowed(x, a, sub128(vb, i)) }
    else if op == MUL { alu_overflowed(x, a, (vb * vc) as u128) }
    else if op == MULI { alu_overflowed(x, a, (vb * i) as u128) }
    else if op == DIV { alu_checked(x, a, if vc == 0 { 0 } else { vb / vc }, vc == 0) }
    else if op == DIVI { alu_checked(x, a, if i == 0 { 0 } else { vb / i }, i == 0) }
    else if op == MOD { alu_checked(x, a, if vc == 0 { 0 } else { vb % vc }, vc == 0) }
    else if op == MODI { alu_checked(x, a, if i == 0 { 0 } else { vb % i }, i == 0) }
    else if op == AND { alu_set_to(x, a, vb & vc) }
    else if op == ANDI { alu_set_to(x, a, vb & i) }
    else if op == OR { alu_set_to(x, a, vb | vc) }
    else if op == ORI { alu_set_to(x, a, vb | i) }
    else if op == XOR { alu_set_to(x, a, vb ^ vc) }
    else if op == XORI { alu_set_to(x, a, vb ^ i) }
    else if op == NOT { alu_set_to(x, a, !vb) }
    else if op == MOVE { alu_set_to(x, a, vb) }
    else if op == MOVI { alu_set_to(x, a, imm18(word) as u64) }
    else if op == EQ { alu_set_to(x, a, bit(vb == vc)) }
    else if op == LT { alu_set_to(x, a, bit(vb < vc)) }
    else if op == GT { alu_set_to(x, a, bit(vb > vc)) }
    else if op == SLL { alu_set_to(x, a, shl_or_zero(vb, vc)) }
    else if op == SLLI { alu_set_to(x, a, shl_or_zero(vb, i)) }
    else if op == SRL { alu_set_to(x, a, shr_or_zero(vb, vc)) }
    else if op == SRLI { alu_set_to(x, a, shr_or_zero(vb, i)) }
    else { alu_cleared(x) }
}

/// The registers, memory and result after the arithmetic or logic instruction
/// `word`, or `None` when `word` is not one.
pub open spec fn alu_outcome<T>(vm: Interpreter<T>, word: u32, g: GasCosts) -> Option<(Seq<u64>, MemoryModel, SimpleResult<ExecuteState>)> {
    match alu_cost(opcode_of(word), g) {
        None => None,
        Some(cost) => Some(after_charge(vm.spec_registers(), vm.spec_memory()@, cost as int,
            |x: Seq<u64>| regs_only(alu_step(x, word), vm.spec_memory()@))),
    }
}

/// `b - c` as an unsigned 128-bit subtraction that wraps below zero.
fn wide_sub(b: u64, c: u64) -> (r: u128)
    ensures
        r == sub128(b, c),
{
    if b >= c {
        (b - c) as u128
    } else {
        u128::MAX - ((c - b) as u128) + 1
    }
}

/// The full 128-bit product of two words.
fn wide_mul(b: u64, c: u64) -> (r: u128)
    ensures
        r == (b * c) as u128,
{
    assert((b as int) * (c as int) <= 0xFFFF_FFFF_FFFF_FFFFint * 0xFFFF_FFFF_FFFF_FFFFint) by (nonlinear_arith)
        requires
            b <= 0xFFFF_FFFF_FFFF_FFFFint,
            c <= 0xFFFF_FFFF_FFFF_FFFFint,
    ;
    (b as u128) * (c as u128)
}

/// What the instruction `word` does to `vm`, for the operations that this library
/// executes: the jumps, FLAG, the call frame and register stack operations, ALOC,
/// the memory clears, copies and comparisons, the byte and word loads and stores,
/// and the arithmetic and logic instructions. `None` for every other operation.
pub open spec fn executed<T>(vm: Interpreter<T>, word: u32, g: GasCosts) -> Option<(Seq<u64>, MemoryModel, SimpleResult<ExecuteState>)> {
    let op = opcode_of(word);
    let a = reg_a(word);
    let b = reg_b(word);
    let c = reg_c(word);
    let d = reg_d(word);
    if op == JI {
        Some(ji_outcome(vm, imm24(word), g))
    } else if op == JNEI {
        Some(jnei_outcome(vm, a, b, imm12(word), g))
    } else if op == JNZI {
        Some(jnzi_outcome(vm, a, imm18(word), g))
    } else if op == JMP {
        Some(jmp_outcome(vm, a, g))
    } else if op == JNE {
        Some(jne_outcome(vm, a, b, c, g))
    } else if op == JAL {
        Some(jal_outcome(vm, a, b, imm12(word), g))
    } else if op == JMPF {
        Some(jmpf_outcome(vm, a, imm18(word), g))
    } else if op == JMPB {
        Some(jmpb_outcome(vm, a, imm18(word), g))
    } else if op == JNZF {
        Some(jnzf_outcome(vm, a, b, imm12(word), g))
    } else if op == JNZB {
        Some(jnzb_outcome(vm, a, b, imm12(word), g))
    } else if op == JNEF {
        Some(jnef_outcome(vm, a, b, c, imm06(word), g))
    } else if op == JNEB {
        Some(jneb_outcome(vm, a, b, c, imm06(word), g))
    } else if op == FLAG {
        Some(flag_outcome(vm, a, g))
    } else if op == CFEI {
        Some(cfei_outcome(vm, imm24(word), g))
    } else if op == CFE {
        Some(cfe_outcome(vm, a, g))
    } else if op == CFSI {
        Some(cfsi_outcome(vm, imm24(word), g))
    } else if op == CFS {
        Some(cfs_outcome(vm, a, g))
    } else if op == PSHL {
        Some(stack_registers_outcome(vm, ProgramRegistersSegment::Low, true, imm24(word), g.pshl))
    } else if op == PSHH {
        Some(stack_registers_outcome(vm, ProgramRegistersSegment::High, true, imm24(word), g.pshh))
    } else if op == POPL {
        Some(stack_registers_outcome(vm, ProgramRegistersSegment::Low, false, imm24(word), g.popl))
    } else if op == POPH {
        Some(stack_registers_outcome(vm, ProgramRegistersSegment::High, false, imm24(word), g.poph))
    } else if op == ALOC {
        Some(aloc_outcome(vm, a, g))
    } else if op == MCL {
        Some(mcl_outcome(vm, a, b, g))
    } else if op == MCLI {
        Some(mcli_outcome(vm, a, imm18(word), g))
    } else if op == MCP {
        Some(mcp_outcome(vm, a, b, c, g))
    } else if op == MCPI {
        Some(mcpi_outcome(vm, a, b, imm12(word), g))
    } else if op == MEQ {
        Some(meq_outcome(vm, a, b, c, d, g))
    } else if op == LB {
        Some(lb_outcome(vm, a, b, imm12(word), g))
    } else if op == LW {
        Some(lw_outcome(vm, a, b, imm12(word), g))
    } else if op == SB {
        Some(sb_outcome(vm, a, b, imm12(word), g))
    } else if op == SW {
        Some(sw_outcome(vm, a, b, imm12(word), g))
    } else {
        alu_outcome(vm, word, g)
    }
}

/// What running the four bytes `bytes` does to `vm`, given what the instruction set
/// says of their operation code (`class`) and whether it accepts the bytes as an
/// instruction (`valid`): an unknown operation or invalid bytes panic with
/// `InvalidInstruction`, an operation that predicates may not run panics with
/// `ContractInstructionNotAllowed` when `predicate`, and otherwise the instruction
/// runs as [`executed`] says.
pub open spec fn decoded_outcome<T>(
    vm: Interpreter<T>,
    class: Option<bool>,
    valid: bool,
    bytes: Seq<u8>,
    predicate: bool,
    g: GasCosts,
) -> Option<(Seq<u64>, MemoryModel, SimpleResult<ExecuteState>)> {
    let fail = |e: PanicReason| Some((vm.spec_registers(), vm.spec_memory()@, Err::<ExecuteState, PanicOrBug>(PanicOrBug::Panic(e))));
    match class {
        None => fail(PanicReason::InvalidInstruction),
        Some(allowed) => if predicate && !allowed {
            fail(PanicReason::ContractInstructionNotAllowed)
        } else if !valid {
            fail(PanicReason::InvalidInstruction)
        } else {
            executed(vm, word_of(bytes[0], bytes[1], bytes[2], bytes[3]), g)
        },
    }
}

/// The gas registers after `t` are at most those of `regs`.
pub open spec fn keeps_gas(regs: Seq<u64>, t: (Seq<u64>, MemoryModel, SimpleResult<ExecuteState>)) -> bool {
    &&& t.0[REG_CGAS as int] <= regs[REG_CGAS as int]
    &&& t.0[REG_GGAS as int] <= regs[REG_GGAS as int]
}

/// JI gives no gas back.
proof fn lemma_ji_gas<T>(vm: Interpreter<T>, imm: u32, g: GasCosts)
    requires
        g.well_formed(),
    ensures
        keeps_gas(vm.spec_registers(), ji_outcome(vm, imm, g)),
{
    vm.lemma_register_count();
}

/// JNEI gives no gas back.
proof fn lemma_jnei_gas<T>(vm: Interpreter<T>, a: u8, b: u8, imm: u32, g: GasCosts)
    requires
        g.well_formed(),
    ensures
        keeps_gas(vm.spec_registers(), jnei_outcome(vm, a, b, imm, g)),
{
    vm.lemma_register_count();
}

/// JNZI gives no gas back.
proof fn lemma_jnzi_gas<T>(vm: Interpreter<T>, a: u8, imm: u32, g: GasCosts)
    requires
        g.well_formed(),
    ensures
        keeps_gas(vm.spec_registers(), jnzi_outcome(vm, a, imm, g)),
{
    vm.lemma_register_count();
}

/// JMP gives no gas back.
proof fn lemma_jmp_gas<T>(vm: Interpreter<T>, a: u8, g: GasCosts)
    requires
        g.well_formed(),
    ensures
        keeps_gas(vm.spec_registers(), jmp_outcome(vm, a, g)),
{
    vm.lemma_register_count();
}

/// JAL gives no gas back.
proof fn lemma_jal_gas<T>(vm: Interpreter<T>, a: u8, b: u8, imm: u32, g: GasCosts)
    requires
        g.well_formed(),
        a < 64,
        b < 64,
    ensures
        keeps_gas(vm.spec_registers(), jal_outcome(vm, a, b, imm, g)),
{
    vm.lemma_register_count();
}

/// The arithmetic and logic instructions give no gas back.
proof fn lemma_alu_gas<T>(vm: Interpreter<T>, word: u32, g: GasCosts)
    requires
        reg_a(word) < 64,
        reg_b(word) < 64,
        reg_c(word) < 64,
    ensures
        alu_outcome(vm, word, g) matches Some(t) ==> keeps_gas(vm.spec_registers(), t),
{
    vm.lemma_register_count();
}

/// JNE gives no gas back.
proof fn lemma_jne_gas<T>(vm: Interpreter<T>, a: u8, b: u8, c: u8, g: GasCosts)
    requires
        g.well_formed(),
    ensures
        keeps_gas(vm.spec_registers(), jne_outcome(vm, a, b, c, g)),
{
    vm.lemma_register_count();
}

/// JMPF gives no gas back.
proof fn lemma_jmpf_gas<T>(vm: Interpreter<T>, a: u8, imm: u32, g: GasCosts)
    requires
        g.well_formed(),
    ensures
        keeps_gas(vm.spec_registers(), jmpf_outcome(vm, a, imm, g)),
{
    vm.lemma_register_count();
}

/// JMPB gives no gas back.
proof fn lemma_jmpb_gas<T>(vm: Interpreter<T>, a: u8, imm: u32, g: GasCosts)
    requires
        g.well_formed(),
    ensures
        keeps_gas(vm.spec_registers(), jmpb_outcome(vm, a, imm, g)),
{
    vm.lemma_register_count();
}

/// JNZF gives no gas back.
proof fn lemma_jnzf_gas<T>(vm: Interpreter<T>, a: u8, b: u8, imm: u32, g: GasCosts)
    requires
        g.well_formed(),
    ensures
        keeps_gas(vm.spec_registers(), jnzf_outcome(vm, a, b, imm, g)),
{
    vm.lemma_register_count();
}

/// JNZB gives no gas back.
proof fn lemma_jnzb_gas<T>(vm: Interpreter<T>, a: u8, b: u8, imm: u32, g: GasCosts)
    requires
        g.well_formed(),
    ensures
        keeps_gas(vm.spec_registers(), jnzb_outcome(vm, a, b, imm, g)),
{
    vm.lemma_register_count();
}

/// JNEF gives no gas back.
proof fn lemma_jnef_gas<T>(vm: Interpreter<T>, a: u8, b: u8, c: u8, imm: u32, g: GasCosts)
    requires
        g.well_formed(),
    ensures
        keeps_gas(vm.spec_registers(), jnef_outcome(vm, a, b, c, imm, g)),
{
    vm.lemma_register_count();
}

/// JNEB gives no gas back.
proof fn lemma_jneb_gas<T>(vm: Interpreter<T>, a: u8, b: u8, c: u8, imm: u32, g: GasCosts)
    requires
        g.well_formed(),
    ensures
        keeps_gas(vm.spec_registers(), jneb_outcome(vm, a, b, c, imm, g)),
{
    vm.lemma_register_count();
}

/// FLAG gives no gas back.
proof fn lemma_flag_gas<T>(vm: Interpreter<T>, a: u8, g: GasCosts)
    requires
        g.well_formed(),
    ensures
        keeps_gas(vm.spec_registers(), flag_outcome(vm, a, g)),
{
    vm.lemma_register_count();
}

/// CFEI gives no gas back.
proof fn lemma_cfei_gas<T>(vm: Interpreter<T>, imm: u32, g: GasCosts)
    requires
        g.well_formed(),
    ensures
        keeps_gas(vm.spec_registers(), cfei_outcome(vm, imm, g)),
{
    vm.lemma_register_count();
}

/// CFE gives no gas back.
proof fn lemma_cfe_gas<T>(vm: Interpreter<T>, a: u8, g: GasCosts)
    requires
        g.well_formed(),
    ensures
        keeps_gas(vm.spec_registers(), cfe_outcome(vm, a, g)),
{
    vm.lemma_register_count();
}

/// CFSI gives no gas back.
proof fn lemma_cfsi_gas<T>(vm: Interpreter<T>, imm: u32, g: GasCosts)
    requires
        g.well_formed(),
    ensures
        keeps_gas(vm.spec_registers(), cfsi_outcome(vm, imm, g)),
{
    vm.lemma_register_count();
}

/// CFS gives no gas back.
proof fn lemma_cfs_gas<T>(vm: Interpreter<T>, a: u8, g: GasCosts)
    requires
        g.well_formed(),
    ensures
        keeps_gas(vm.spec_registers(), cfs_outcome(vm, a, g)),
{
    vm.lemma_register_count();
}

/// PSHL, PSHH, POPL and POPH give no gas back.
proof fn lemma_stack_registers_gas<T>(vm: Interpreter<T>, segment: ProgramRegistersSegment, push: bool, mask: u32, gas: u64)
    ensures
        keeps_gas(vm.spec_registers(), stack_registers_outcome(vm, segment, push, mask, gas)),
{
    vm.lemma_register_count();
}

/// ALOC gives no gas back.
proof fn lemma_aloc_gas<T>(vm: Interpreter<T>, a: u8, g: GasCosts)
    requires
        g.well_formed(),
    ensures
        keeps_gas(vm.spec_registers(), aloc_outcome(vm, a, g)),
{
    vm.lemma_register_count();
}

/// MCL gives no gas back.
proof fn lemma_mcl_gas<T>(vm: Interpreter<T>, a: u8, b: u8, g: GasCosts)
    requires
        g.well_formed(),
    ensures
        keeps_gas(vm.spec_registers(), mcl_outcome(vm, a, b, g)),
{
    vm.lemma_register_count();
}

/// MCLI gives no gas back.
proof fn lemma_mcli_gas<T>(vm: Interpreter<T>, a: u8, imm: u32, g: GasCosts)
    requires
        g.well_formed(),
    ensures
        keeps_gas(vm.spec_registers(), mcli_outcome(vm, a, imm, g)),
{
    vm.lemma_register_count();
}

/// MCP gives no gas back.
proof fn lemma_mcp_gas<T>(vm: Interpreter<T>, a: u8, b: u8, c: u8, g: GasCosts)
    requires
        g.well_formed(),
    ensures
        keeps_gas(vm.spec_registers(), mcp_outcome(vm, a, b, c, g)),
{
    vm.lemma_register_count();
}

/// MCPI gives no gas back.
proof fn lemma_mcpi_gas<T>(vm: Interpreter<T>, a: u8, b: u8, imm: u32, g: GasCosts)
    requires
        g.well_formed(),
    ensures
        keeps_gas(vm.spec_registers(), mcpi_outcome(vm, a, b, imm, g)),
{
    vm.lemma_register_count();
}

/// MEQ gives no gas back.
proof fn lemma_meq_gas<T>(vm: Interpreter<T>, a: u8, b: u8, c: u8, d: u8, g: GasCosts)
    requires
        g.well_formed(),
        a < 64,
    ensures
        keeps_gas(vm.spec_registers(), meq_outcome(vm, a, b, c, d, g)),
{
    vm.lemma_register_count();
}

/// LB gives no gas back.
proof fn lemma_lb_gas<T>(vm: Interpreter<T>, a: u8, b: u8, imm: u32, g: GasCosts)
    requires
        g.well_formed(),
        a < 64,
    ensures
        keeps_gas(vm.spec_registers(), lb_outcome(vm, a, b, imm, g)),
{
    vm.lemma_register_count();
}

/// LW gives no gas back.
proof fn lemma_lw_gas<T>(vm: Interpreter<T>, a: u8, b: u8, imm: u32, g: GasCosts)
    requires
        g.well_formed(),
        a < 64,
    ensures
        keeps_gas(vm.spec_registers(), lw_outcome(vm, a, b, imm, g)),
{
    vm.lemma_register_count();
}

/// SB gives no gas back.
proof fn lemma_sb_gas<T>(vm: Interpreter<T>, a: u8, b: u8, imm: u32, g: GasCosts)
    requires
        g.well_formed(),
    ensures
        keeps_gas(vm.spec_registers(), sb_outcome(vm, a, b, imm, g)),
{
    vm.lemma_register_count();
}

/// SW gives no gas back.
proof fn lemma_sw_gas<T>(vm: Interpreter<T>, a: u8, b: u8, imm: u32, g: GasCosts)
    requires
        g.well_formed(),
    ensures
        keeps_gas(vm.spec_registers(), sw_outcome(vm, a, b, imm, g)),
{
    vm.lemma_register_count();
}

/// Running an instruction never gives gas back: the context gas and the global gas
/// after it are at most what they were.
pub proof fn law_gas_never_grows<T>(vm: Interpreter<T>, word: u32, g: GasCosts)
    requires
        g.well_formed(),
    ensures
        executed(vm, word, g) matches Some(t) ==> keeps_gas(vm.spec_registers(), t),
{
    let op = opcode_of(word);
    let a = reg_a(word);
    let b = reg_b(word);
    let c = reg_c(word);
    let d = reg_d(word);
    assert(((word >> 18u32) & 0x3fu32) < 64) by (bit_vector);
    if op == JI {
        lemma_ji_gas(vm, imm24(word), g);
    } else if op == JNEI {
        lemma_jnei_gas(vm, a, b, imm12(word), g);
    } else if op == JNZI {
        lemma_jnzi_gas(vm, a, imm18(word), g);
    } else if op == JMP {
        lemma_jmp_gas(vm, a, g);
    } else if op == JNE {
        lemma_jne_gas(vm, a, b, c, g);
    } else if op == JAL {
        assert(((word >> 12u32) & 0x3fu32) < 64) by (bit_vector);
        lemma_jal_gas(vm, a, b, imm12(word), g);
    } else if op == JMPF {
        lemma_jmpf_gas(vm, a, imm18(word), g);
    } else if op == JMPB {
        lemma_jmpb_gas(vm, a, imm18(word), g);
    } else if op == JNZF {
        lemma_jnzf_gas(vm, a, b, imm12(word), g);
    } else if op == JNZB {
        lemma_jnzb_gas(vm, a, b, imm12(word), g);
    } else if op == JNEF {
        lemma_jnef_gas(vm, a, b, c, imm06(word), g);
    } else if op == JNEB {
        lemma_jneb_gas(vm, a, b, c, imm06(word), g);
    } else if op == FLAG {
        lemma_flag_gas(vm, a, g);
    } else if op == CFEI {
        lemma_cfei_gas(vm, imm24(word), g);
    } else if op == CFE {
        lemma_cfe_gas(vm, a, g);
    } else if op == CFSI {
        lemma_cfsi_gas(vm, imm24(word), g);
    } else if op == CFS {
        lemma_cfs_gas(vm, a, g);
    } else if op == PSHL {
        lemma_stack_registers_gas(vm, ProgramRegistersSegment::Low, true, imm24(word), g.pshl);
    } else if op == PSHH {
        lemma_stack_registers_gas(vm, ProgramRegistersSegment::High, true, imm24(word), g.pshh);
    } else if op == POPL {
        lemma_stack_registers_gas(vm, ProgramRegistersSegment::Low, false, imm24(word), g.popl);
    } else if op == POPH {
        lemma_stack_registers_gas(vm, ProgramRegistersSegment::High, false, imm24(word), g.poph);
    } else if op == ALOC {
        lemma_aloc_gas(vm, a, g);
    } else if op == MCL {
        lemma_mcl_gas(vm, a, b, g);
    } else if op == MCLI {
        lemma_mcli_gas(vm, a, imm18(word), g);
    } else if op == MCP {
        lemma_mcp_gas(vm, a, b, c, g);
    } else if op == MCPI {
        lemma_mcpi_gas(vm, a, b, imm12(word), g);
    } else if op == MEQ {
        lemma_meq_gas(vm, a, b, c, d, g);
    } else if op == LB {
        lemma_lb_gas(vm, a, b, imm12(word), g);
    } else if op == LW {
        lemma_lw_gas(vm, a, b, imm12(word), g);
    } else if op == SB {
        lemma_sb_gas(vm, a, b, imm12(word), g);
    } else if op == SW {
        lemma_sw_gas(vm, a, b, imm12(word), g);
    } else {
        assert(((word >> 12u32) & 0x3fu32) < 64) by (bit_vector);
        assert(((word >> 6u32) & 0x3fu32) < 64) by (bit_vector);
        lemma_alu_gas(vm, word, g);
    }
}

/// The interpreter state and result after an instruction: the registers, memory and
/// result are those of `t`, and the call frames, what runs and the trace stay.
pub open spec fn stepped<T>(
    before: Interpreter<T>,
    after: Interpreter<T>,
    t: (Seq<u64>, MemoryModel, SimpleResult<ExecuteState>),
    r: SimpleResult<ExecuteState>,
) -> bool {
    &&& after.inv()
    &&& after.spec_registers() == t.0
    &&& after.spec_memory()@ == t.1
    &&& r == t.2
    &&& after.spec_frames() == before.spec_frames()
    &&& after.spec_context() == before.spec_context()
    &&& after.spec_trace() == before.spec_trace()
    &&& after.spec_receipts() == before.spec_receipts()
}

/// The registers, memory and result after JI.
pub open spec fn ji_outcome<T>(vm: Interpreter<T>, imm: u32, g: GasCosts) -> (Seq<u64>, MemoryModel, SimpleResult<ExecuteState>) {
    after_charge(vm.spec_registers(), vm.spec_memory()@, g.ji as int,
        |c: Seq<u64>| regs_only(jumped(c, jump_args(true, JumpMode::RelativeIS, imm as u64, 0)), vm.spec_memory()@))
}

/// The registers, memory and result after JNEI.
pub open spec fn jnei_outcome<T>(vm: Interpreter<T>, a: u8, b: u8, imm: u32, g: GasCosts) -> (Seq<u64>, MemoryModel, SimpleResult<ExecuteState>) {
    after_charge(vm.spec_registers(), vm.spec_memory()@, g.jnei as int,
        |c: Seq<u64>| regs_only(jumped(c, jump_args(c[a as int] != c[b as int], JumpMode::RelativeIS, imm as u64, 0)),
        vm.spec_memory()@))
}

/// The registers, memory and result after JNZI.
pub open spec fn jnzi_outcome<T>(vm: Interpreter<T>, a: u8, imm: u32, g: GasCosts) -> (Seq<u64>, MemoryModel, SimpleResult<ExecuteState>) {
    after_charge(vm.spec_registers(), vm.spec_memory()@, g.jnzi as int,
        |c: Seq<u64>| regs_only(jumped(c, jump_args(c[a as int] != 0, JumpMode::RelativeIS, imm as u64, 0)),
        vm.spec_memory()@))
}

/// The registers, memory and result after JMP.
pub open spec fn jmp_outcome<T>(vm: Interpreter<T>, a: u8, g: GasCosts) -> (Seq<u64>, MemoryModel, SimpleResult<ExecuteState>) {
    after_charge(vm.spec_registers(), vm.spec_memory()@, g.jmp as int,
        |c: Seq<u64>| regs_only(jumped(c, jump_args(true, JumpMode::RelativeIS, c[a as int], 0)),
        vm.spec_memory()@))
}

/// The registers, memory and result after JAL: the address of the next instruction,
/// saturating, goes to register `a`, then the program counter jumps to register `b`
/// plus `imm` instructions.
pub open spec fn jal_outcome<T>(vm: Interpreter<T>, a: u8, b: u8, imm: u32, g: GasCosts) -> (Seq<u64>, MemoryModel, SimpleResult<ExecuteState>) {
    after_charge(vm.spec_registers(), vm.spec_memory()@, g.jmp as int,
        |c: Seq<u64>| {
            let ret = if c[REG_PC as int] + 4 > u64::MAX { u64::MAX } else { (c[REG_PC as int] + 4) as u64 };
            let (c2, res) = user_reg_set(c, a as int, ret);
            match res {
                Err(e) => (c2, vm.spec_memory()@, Err(e)),
                Ok(()) => regs_only(jumped(c2, jump_args(true, JumpMode::Assign, c2[b as int], imm as u64)),
                    vm.spec_memory()@),
            }
        })
}

/// The registers, memory and result after JNE.
pub open spec fn jne_outcome<T>(vm: Interpreter<T>, a: u8, b: u8, c: u8, g: GasCosts) -> (Seq<u64>, MemoryModel, SimpleResult<ExecuteState>) {
    after_charge(vm.spec_registers(), vm.spec_memory()@, g.jne as int,
        |x: Seq<u64>| regs_only(jumped(x, jump_args(x[a as int] != x[b as int], JumpMode::RelativeIS, x[c as int], 0)),
        vm.spec_memory()@))
}

/// The registers, memory and result after JMPF.
pub open spec fn jmpf_outcome<T>(vm: Interpreter<T>, a: u8, imm: u32, g: GasCosts) -> (Seq<u64>, MemoryModel, SimpleResult<ExecuteState>) {
    after_charge(vm.spec_registers(), vm.spec_memory()@, g.jmpf as int,
        |c: Seq<u64>| regs_only(jumped(c, jump_args(true, JumpMode::RelativeForwards, c[a as int], imm as u64)),
        vm.spec_memory()@))
}

/// The registers, memory and result after JMPB.
pub open spec fn jmpb_outcome<T>(vm: Interpreter<T>, a: u8, imm: u32, g: GasCosts) -> (Seq<u64>, MemoryModel, SimpleResult<ExecuteState>) {
    after_charge(vm.spec_registers(), vm.spec_memory()@, g.jmpb as int,
        |c: Seq<u64>| regs_only(jumped(c, jump_args(true, JumpMode::RelativeBackwards, c[a as int], imm as u64)),
        vm.spec_memory()@))
}

/// The registers, memory and result after JNZF.
pub open spec fn jnzf_outcome<T>(vm: Interpreter<T>, a: u8, b: u8, imm: u32, g: GasCosts) -> (Seq<u64>, MemoryModel, SimpleResult<ExecuteState>) {
    after_charge(vm.spec_registers(), vm.spec_memory()@, g.jnzf as int,
        |c: Seq<u64>| regs_only(jumped(c, jump_args(c[a as int] != 0, JumpMode::RelativeForwards, c[b as int], imm as u64)),
        vm.spec_memory()@))
}

/// The registers, memory and result after JNZB.
pub open spec fn jnzb_outcome<T>(vm: Interpreter<T>, a: u8, b: u8, imm: u32, g: GasCosts) -> (Seq<u64>, MemoryModel, SimpleResult<ExecuteState>) {
    after_charge(vm.spec_registers(), vm.spec_memory()@, g.jnzb as int,
        |c: Seq<u64>| regs_only(jumped(c, jump_args(c[a as int] != 0, JumpMode::RelativeBackwards, c[b as int], imm as u64)),
        vm.spec_memory()@))
}

/// The registers, memory and result after JNEF.
pub open spec fn jnef_outcome<T>(vm: Interpreter<T>, a: u8, b: u8, c: u8, imm: u32, g: GasCosts) -> (Seq<u64>, MemoryModel, SimpleResult<ExecuteState>) {
    after_charge(vm.spec_registers(), vm.spec_memory()@, g.jnef as int,
        |x: Seq<u64>| regs_only(jumped(x, jump_args(x[a as int] != x[b as int], JumpMode::RelativeForwards, x[c as int], imm as u64)),
        vm.spec_memory()@))
}

/// The registers, memory and result after JNEB.
pub open spec fn jneb_outcome<T>(vm: Interpreter<T>, a: u8, b: u8, c: u8, imm: u32, g: GasCosts) -> (Seq<u64>, MemoryModel, SimpleResult<ExecuteState>) {
    after_charge(vm.spec_registers(), vm.spec_memory()@, g.jneb as int,
        |x: Seq<u64>| regs_only(jumped(x, jump_args(x[a as int] != x[b as int], JumpMode::RelativeBackwards, x[c as int], imm as u64)),
        vm.spec_memory()@))
}

/// The registers, memory and result after FLAG.
pub open spec fn flag_outcome<T>(vm: Interpreter<T>, a: u8, g: GasCosts) -> (Seq<u64>, MemoryModel, SimpleResult<ExecuteState>) {
    after_charge(vm.spec_registers(), vm.spec_memory()@, g.flag as int,
        |c: Seq<u64>| regs_only(flagged(c, c[a as int]), vm.spec_memory()@))
}

/// The registers, memory and result after CFEI.
pub open spec fn cfei_outcome<T>(vm: Interpreter<T>, imm: u32, g: GasCosts) -> (Seq<u64>, MemoryModel, SimpleResult<ExecuteState>) {
    after_charge(vm.spec_registers(), vm.spec_memory()@,
        g.cfei.spec_resolve(imm as u64),
        |c: Seq<u64>| stack_moved(c, vm.spec_memory()@, add_word(c[REG_SP as int], imm as u64)))
}

/// The registers, memory and result after CFE.
pub open spec fn cfe_outcome<T>(vm: Interpreter<T>, a: u8, g: GasCosts) -> (Seq<u64>, MemoryModel, SimpleResult<ExecuteState>) {
    let n = vm.spec_registers()[a as int];
    after_charge(vm.spec_registers(), vm.spec_memory()@,
        g.cfe.spec_resolve(n),
        |c: Seq<u64>| stack_moved(c, vm.spec_memory()@, add_word(c[REG_SP as int], n)))
}

/// The registers, memory and result after CFSI.
pub open spec fn cfsi_outcome<T>(vm: Interpreter<T>, imm: u32, g: GasCosts) -> (Seq<u64>, MemoryModel, SimpleResult<ExecuteState>) {
    after_charge(vm.spec_registers(), vm.spec_memory()@,
        g.cfsi as int,
        |c: Seq<u64>| stack_moved(c, vm.spec_memory()@, sub_word(c[REG_SP as int], imm as u64)))
}

/// The registers, memory and result after CFS.
pub open spec fn cfs_outcome<T>(vm: Interpreter<T>, a: u8, g: GasCosts) -> (Seq<u64>, MemoryModel, SimpleResult<ExecuteState>) {
    after_charge(vm.spec_registers(), vm.spec_memory()@,
        g.cfsi as int,
        |c: Seq<u64>| stack_moved(c, vm.spec_memory()@, sub_word(c[REG_SP as int], c[a as int])))
}

/// The registers, memory and result after STACK_REGISTERS.
pub open spec fn stack_registers_outcome<T>(vm: Interpreter<T>, segment: ProgramRegistersSegment, push: bool, mask: u32, gas: u64) -> (Seq<u64>, MemoryModel, SimpleResult<ExecuteState>) {
    after_charge(vm.spec_registers(), vm.spec_memory()@,
        gas as int,
        |c: Seq<u64>| if push {
        pushed(c, vm.spec_memory()@, segment, mask)
        } else {
        popped(c, vm.spec_memory()@, segment, mask)
        })
}

/// The registers, memory and result after ALOC.
pub open spec fn aloc_outcome<T>(vm: Interpreter<T>, a: u8, g: GasCosts) -> (Seq<u64>, MemoryModel, SimpleResult<ExecuteState>) {
    let n = vm.spec_registers()[a as int];
    after_charge(vm.spec_registers(), vm.spec_memory()@,
        g.aloc.spec_resolve(n), |c: Seq<u64>| allocated(c, vm, n))
}

/// The registers, memory and result after MCL.
pub open spec fn mcl_outcome<T>(vm: Interpreter<T>, a: u8, b: u8, g: GasCosts) -> (Seq<u64>, MemoryModel, SimpleResult<ExecuteState>) {
    let len = vm.spec_registers()[b as int];
    after_charge(vm.spec_registers(), vm.spec_memory()@,
        g.mcl.spec_resolve(len),
        |c: Seq<u64>| stored(c, vm.spec_memory()@, vm.spec_prev_hp(), c[a as int] as int,
        zeros(len as int)))
}

/// The registers, memory and result after MCLI.
pub open spec fn mcli_outcome<T>(vm: Interpreter<T>, a: u8, imm: u32, g: GasCosts) -> (Seq<u64>, MemoryModel, SimpleResult<ExecuteState>) {
    after_charge(vm.spec_registers(), vm.spec_memory()@,
        g.mcli.spec_resolve(imm as u64),
        |c: Seq<u64>| stored(c, vm.spec_memory()@, vm.spec_prev_hp(), c[a as int] as int,
        zeros(imm as int)))
}

/// The registers, memory and result after MCP.
pub open spec fn mcp_outcome<T>(vm: Interpreter<T>, a: u8, b: u8, c: u8, g: GasCosts) -> (Seq<u64>, MemoryModel, SimpleResult<ExecuteState>) {
    let len = vm.spec_registers()[c as int];
    after_charge(vm.spec_registers(), vm.spec_memory()@,
        g.mcp.spec_resolve(len),
        |x: Seq<u64>| copied(x, vm.spec_memory()@, vm.spec_prev_hp(), x[a as int] as int,
        x[b as int] as int, len as int))
}

/// The registers, memory and result after MCPI.
pub open spec fn mcpi_outcome<T>(vm: Interpreter<T>, a: u8, b: u8, imm: u32, g: GasCosts) -> (Seq<u64>, MemoryModel, SimpleResult<ExecuteState>) {
    after_charge(vm.spec_registers(), vm.spec_memory()@,
        g.mcpi.spec_resolve(imm as u64),
        |x: Seq<u64>| copied(x, vm.spec_memory()@, vm.spec_prev_hp(), x[a as int] as int,
        x[b as int] as int, imm as int))
}

/// The registers, memory and result after MEQ.
pub open spec fn meq_outcome<T>(vm: Interpreter<T>, a: u8, b: u8, c: u8, d: u8, g: GasCosts) -> (Seq<u64>, MemoryModel, SimpleResult<ExecuteState>) {
    let len = vm.spec_registers()[d as int];
    after_charge(vm.spec_registers(), vm.spec_memory()@,
        g.meq.spec_resolve(len),
        |x: Seq<u64>| compared(x, vm.spec_memory()@, a, x[b as int] as int, x[c as int] as int,
        len as int))
}

/// The registers, memory and result after LB.
pub open spec fn lb_outcome<T>(vm: Interpreter<T>, a: u8, b: u8, imm: u32, g: GasCosts) -> (Seq<u64>, MemoryModel, SimpleResult<ExecuteState>) {
    after_charge(vm.spec_registers(), vm.spec_memory()@,
        g.lb as int,
        |c: Seq<u64>| loaded(c, vm.spec_memory()@, a, sat_addr(c[b as int] as int, imm as int), 1,
        |s: Seq<u8>| first_byte(s)))
}

/// The registers, memory and result after LW.
pub open spec fn lw_outcome<T>(vm: Interpreter<T>, a: u8, b: u8, imm: u32, g: GasCosts) -> (Seq<u64>, MemoryModel, SimpleResult<ExecuteState>) {
    after_charge(vm.spec_registers(), vm.spec_memory()@,
        g.lw as int,
        |c: Seq<u64>| loaded_word(c, vm.spec_memory()@, a, c[b as int], imm as u64))
}

/// The registers, memory and result after SB.
pub open spec fn sb_outcome<T>(vm: Interpreter<T>, a: u8, b: u8, imm: u32, g: GasCosts) -> (Seq<u64>, MemoryModel, SimpleResult<ExecuteState>) {
    after_charge(vm.spec_registers(), vm.spec_memory()@,
        g.sb as int,
        |c: Seq<u64>| stored(c, vm.spec_memory()@, vm.spec_prev_hp(),
        sat_addr(c[a as int] as int, imm as int), seq![(c[b as int] % 256) as u8]))
}

/// The registers, memory and result after SW.
pub open spec fn sw_outcome<T>(vm: Interpreter<T>, a: u8, b: u8, imm: u32, g: GasCosts) -> (Seq<u64>, MemoryModel, SimpleResult<ExecuteState>) {
    after_charge(vm.spec_registers(), vm.spec_memory()@,
        g.sw as int,
        |c: Seq<u64>| stored(c, vm.spec_memory()@, vm.spec_prev_hp(),
        sat_addr(c[a as int] as int, 8 * imm), word_be_bytes(c[b as int])))
}

impl<Trace> Interpreter<Trace> {
    /// JI: jumps to instruction `imm` of the running code.
    pub fn execute_ji(&mut self, imm: u32, g: &GasCosts) -> (r: SimpleResult<ExecuteState>)
        requires
            old(self).inv(),
        ensures
            stepped(*old(self), *final(self), ji_outcome(*old(self), imm, *g), r),
            final(self).spec_memory() == old(self).spec_memory(),
    {
        if let Err(e) = self.gas_charge(g.ji) {
            return Err(e);
        }
        let r = self.jump(JumpArgs::new(JumpMode::RelativeIS).to_address(imm as u64));
        proceed_after(r)
    }

    /// JNEI: jumps to instruction `imm` when registers `a` and `b` differ.
    pub fn execute_jnei(&mut self, a: u8, b: u8, imm: u32, g: &GasCosts) -> (r: SimpleResult<ExecuteState>)
        requires
            old(self).inv(),
            a < 64,
            b < 64,
        ensures
            stepped(*old(self), *final(self), jnei_outcome(*old(self), a, b, imm, *g), r),
            final(self).spec_memory() == old(self).spec_memory(),
    {
        if let Err(e) = self.gas_charge(g.jnei) {
            return Err(e);
        }
        let x = self.registers()[a as usize];
        let y = self.registers()[b as usize];
        let r = self.jump(JumpArgs::new(JumpMode::RelativeIS).with_condition(x != y).to_address(imm as u64));
        proceed_after(r)
    }

    /// JNZI: jumps to instruction `imm` when register `a` is not zero.
    pub fn execute_jnzi(&mut self, a: u8, imm: u32, g: &GasCosts) -> (r: SimpleResult<ExecuteState>)
        requires
            old(self).inv(),
            a < 64,
        ensures
            stepped(*old(self), *final(self), jnzi_outcome(*old(self), a, imm, *g), r),
            final(self).spec_memory() == old(self).spec_memory(),
    {
        if let Err(e) = self.gas_charge(g.jnzi) {
            return Err(e);
        }
        let x = self.registers()[a as usize];
        let r = self.jump(JumpArgs::new(JumpMode::RelativeIS).with_condition(x != 0).to_address(imm as u64));
        proceed_after(r)
    }

    /// JMP: jumps to the instruction that register `a` holds.
    pub fn execute_jmp(&mut self, a: u8, g: &GasCosts) -> (r: SimpleResult<ExecuteState>)
        requires
            old(self).inv(),
            a < 64,
        ensures
            stepped(*old(self), *final(self), jmp_outcome(*old(self), a, *g), r),
            final(self).spec_memory() == old(self).spec_memory(),
    {
        if let Err(e) = self.gas_charge(g.jmp) {
            return Err(e);
        }
        let x = self.registers()[a as usize];
        let r = self.jump(JumpArgs::new(JumpMode::RelativeIS).to_address(x));
        proceed_after(r)
    }

    /// JAL: stores the address of the next instruction in register `a`, then jumps
    /// to the address in register `b` plus `imm` instructions.
    pub fn execute_jal(&mut self, a: u8, b: u8, imm: u32, g: &GasCosts) -> (r: SimpleResult<ExecuteState>)
        requires
            old(self).inv(),
            a < 64,
            b < 64,
        ensures
            stepped(*old(self), *final(self), jal_outcome(*old(self), a, b, imm, *g), r),
            final(self).spec_memory() == old(self).spec_memory(),
    {
        if let Err(e) = self.gas_charge(g.jmp) {
            return Err(e);
        }
        let ret = self.registers()[REG_PC].saturating_add(4);
        if let Err(e) = self.set_user_reg_or_discard(a as usize, ret) {
            return Err(e);
        }
        let target = self.registers()[b as usize];
        let r = self.jump(JumpArgs::new(JumpMode::Assign).to_address(target).plus_fixed(imm as u64));
        proceed_after(r)
    }

    /// JNE: jumps to the instruction that register `c` holds when registers `a` and
    /// `b` differ.
    pub fn execute_jne(&mut self, a: u8, b: u8, c: u8, g: &GasCosts) -> (r: SimpleResult<ExecuteState>)
        requires
            old(self).inv(),
            a < 64,
            b < 64,
            c < 64,
        ensures
            stepped(*old(self), *final(self), jne_outcome(*old(self), a, b, c, *g), r),
            final(self).spec_memory() == old(self).spec_memory(),
    {
        if let Err(e) = self.gas_charge(g.jne) {
            return Err(e);
        }
        let x = self.registers()[a as usize];
        let y = self.registers()[b as usize];
        let z = self.registers()[c as usize];
        let r = self.jump(JumpArgs::new(JumpMode::RelativeIS).with_condition(x != y).to_address(z));
        proceed_after(r)
    }

    /// A relative jump of `mode` to register `d` plus `imm`, taken when `cond` holds
    /// of the charged registers.
    fn relative_jump(&mut self, mode: JumpMode, condition: bool, d: u8, imm: u64) -> (r: SimpleResult<ExecuteState>)
        requires
            d < 64,
        ensures
            final(self).spec_registers() == jumped(
                old(self).spec_registers(),
                jump_args(condition, mode, old(self).spec_registers()[d as int], imm),
            ).0,
            r == proceed(
                jumped(old(self).spec_registers(), jump_args(condition, mode, old(self).spec_registers()[d as int], imm)).1,
            ),
            final(self).spec_memory() == old(self).spec_memory(),
            final(self).spec_frames() == old(self).spec_frames(),
            final(self).spec_context() == old(self).spec_context(),
            final(self).spec_trace() == old(self).spec_trace(),
            final(self).spec_receipts() == old(self).spec_receipts(),
    {
        let z = self.registers()[d as usize];
        let r = self.jump(JumpArgs::new(mode).with_condition(condition).to_address(z).plus_fixed(imm));
        proceed_after(r)
    }

    /// JMPF: jumps forwards by register `a` plus `imm` plus one instructions.
    pub fn execute_jmpf(&mut self, a: u8, imm: u32, g: &GasCosts) -> (r: SimpleResult<ExecuteState>)
        requires
            old(self).inv(),
            a < 64,
        ensures
            stepped(*old(self), *final(self), jmpf_outcome(*old(self), a, imm, *g), r),
            final(self).spec_memory() == old(self).spec_memory(),
    {
        if let Err(e) = self.gas_charge(g.jmpf) {
            return Err(e);
        }
        self.relative_jump(JumpMode::RelativeForwards, true, a, imm as u64)
    }

    /// JMPB: jumps backwards by register `a` plus `imm` plus one instructions.
    pub fn execute_jmpb(&mut self, a: u8, imm: u32, g: &GasCosts) -> (r: SimpleResult<ExecuteState>)
        requires
            old(self).inv(),
            a < 64,
        ensures
            stepped(*old(self), *final(self), jmpb_outcome(*old(self), a, imm, *g), r),
            final(self).spec_memory() == old(self).spec_memory(),
    {
        if let Err(e) = self.gas_charge(g.jmpb) {
            return Err(e);
        }
        self.relative_jump(JumpMode::RelativeBackwards, true, a, imm as u64)
    }

    /// JNZF: jumps forwards by register `b` plus `imm` plus one instructions when
    /// register `a` is not zero.
    pub fn execute_jnzf(&mut self, a: u8, b: u8, imm: u32, g: &GasCosts) -> (r: SimpleResult<ExecuteState>)
        requires
            old(self).inv(),
            a < 64,
            b < 64,
        ensures
            stepped(*old(self), *final(self), jnzf_outcome(*old(self), a, b, imm, *g), r),
            final(self).spec_memory() == old(self).spec_memory(),
    {
        if let Err(e) = self.gas_charge(g.jnzf) {
            return Err(e);
        }
        let x = self.registers()[a as usize];
        self.relative_jump(JumpMode::RelativeForwards, x != 0, b, imm as u64)
    }

    /// JNZB: jumps backwards by register `b` plus `imm` plus one instructions when
    /// register `a` is not zero.
    pub fn execute_jnzb(&mut self, a: u8, b: u8, imm: u32, g: &GasCosts) -> (r: SimpleResult<ExecuteState>)
        requires
            old(self).inv(),
            a < 64,
            b < 64,
        ensures
            stepped(*old(self), *final(self), jnzb_outcome(*old(self), a, b, imm, *g), r),
            final(self).spec_memory() == old(self).spec_memory(),
    {
        if let Err(e) = self.gas_charge(g.jnzb) {
            return Err(e);
        }
        let x = self.registers()[a as usize];
        self.relative_jump(JumpMode::RelativeBackwards, x != 0, b, imm as u64)
    }

    /// JNEF: jumps forwards by register `c` plus `imm` plus one instructions when
    /// registers `a` and `b` differ.
    pub fn execute_jnef(&mut self, a: u8, b: u8, c: u8, imm: u32, g: &GasCosts) -> (r: SimpleResult<ExecuteState>)
        requires
            old(self).inv(),
            a < 64,
            b < 64,
            c < 64,
        ensures
            stepped(*old(self), *final(self), jnef_outcome(*old(self), a, b, c, imm, *g), r),
            final(self).spec_memory() == old(self).spec_memory(),
    {
        if let Err(e) = self.gas_charge(g.jnef) {
            return Err(e);
        }
        let x = self.registers()[a as usize];
        let y = self.registers()[b as usize];
        self.relative_jump(JumpMode::RelativeForwards, x != y, c, imm as u64)
    }

    /// JNEB: jumps backwards by register `c` plus `imm` plus one instructions when
    /// registers `a` and `b` differ.
    pub fn execute_jneb(&mut self, a: u8, b: u8, c: u8, imm: u32, g: &GasCosts) -> (r: SimpleResult<ExecuteState>)
        requires
            old(self).inv(),
            a < 64,
            b < 64,
            c < 64,
        ensures
            stepped(*old(self), *final(self), jneb_outcome(*old(self), a, b, c, imm, *g), r),
            final(self).spec_memory() == old(self).spec_memory(),
    {
        if let Err(e) = self.gas_charge(g.jneb) {
            return Err(e);
        }
        let x = self.registers()[a as usize];
        let y = self.registers()[b as usize];
        self.relative_jump(JumpMode::RelativeBackwards, x != y, c, imm as u64)
    }

    /// FLAG: sets the flags register to register `a`.
    pub fn execute_flag(&mut self, a: u8, g: &GasCosts) -> (r: SimpleResult<ExecuteState>)
        requires
            old(self).inv(),
            a < 64,
        ensures
            stepped(*old(self), *final(self), flag_outcome(*old(self), a, *g), r),
            final(self).spec_memory() == old(self).spec_memory(),
    {
        if let Err(e) = self.gas_charge(g.flag) {
            return Err(e);
        }
        let x = self.registers()[a as usize];
        let r = self.set_flag(x);
        proceed_after(r)
    }

    /// Moves the stack pointer up by `v` bytes, failing on overflow.
    fn grow_stack_by(&mut self, v: u64) -> (r: SimpleResult<()>)
        requires
            old(self).inv(),
        ensures
            ({
                let t = stack_moved(old(self).spec_registers(), old(self).spec_memory()@,
                    add_word(old(self).spec_registers()[REG_SP as int], v));
                &&& final(self).inv()
                &&& final(self).spec_registers() == t.0
                &&& final(self).spec_memory()@ == t.1
                &&& r == t.2
            }),
            final(self).spec_frames() == old(self).spec_frames(),
            final(self).spec_context() == old(self).spec_context(),
            final(self).spec_trace() == old(self).spec_trace(),
            final(self).spec_receipts() == old(self).spec_receipts(),
    {
        let f = |x: u64, y: u64| -> (res: (u64, bool))
            ensures
                res.1 == (add_word(x, y) is None),
                !res.1 ==> res.0 == add_word(x, y)->0,
        {
            match x.checked_add(y) {
                Some(s) => (s, false),
                None => (x.wrapping_add(y), true),
            }
        };
        self.stack_pointer_overflow(f, v)
    }

    /// Moves the stack pointer down by `v` bytes, failing below zero.
    fn shrink_stack_by(&mut self, v: u64) -> (r: SimpleResult<()>)
        requires
            old(self).inv(),
        ensures
            ({
                let t = stack_moved(old(self).spec_registers(), old(self).spec_memory()@,
                    sub_word(old(self).spec_registers()[REG_SP as int], v));
                &&& final(self).inv()
                &&& final(self).spec_registers() == t.0
                &&& final(self).spec_memory()@ == t.1
                &&& r == t.2
            }),
            final(self).spec_frames() == old(self).spec_frames(),
            final(self).spec_context() == old(self).spec_context(),
            final(self).spec_trace() == old(self).spec_trace(),
            final(self).spec_receipts() == old(self).spec_receipts(),
    {
        let f = |x: u64, y: u64| -> (res: (u64, bool))
            ensures
                res.1 == (sub_word(x, y) is None),
                !res.1 ==> res.0 == sub_word(x, y)->0,
        {
            match x.checked_sub(y) {
                Some(s) => (s, false),
                None => (x.wrapping_sub(y), true),
            }
        };
        self.stack_pointer_overflow(f, v)
    }

    /// CFEI: extends the call frame by `imm` bytes.
    pub fn execute_cfei(&mut self, imm: u32, g: &GasCosts) -> (r: SimpleResult<ExecuteState>)
        requires
            old(self).inv(),
            g.well_formed(),
        ensures
            stepped(*old(self), *final(self), cfei_outcome(*old(self), imm, *g), r),
    {
        if let Err(e) = self.dependent_gas_charge(g.cfei, imm as u64) {
            return Err(e);
        }
        let r = self.grow_stack_by(imm as u64);
        proceed_after(r)
    }

    /// CFE: extends the call frame by the bytes that register `a` holds.
    pub fn execute_cfe(&mut self, a: u8, g: &GasCosts) -> (r: SimpleResult<ExecuteState>)
        requires
            old(self).inv(),
            g.well_formed(),
            a < 64,
        ensures
            stepped(*old(self), *final(self), cfe_outcome(*old(self), a, *g), r),
    {
        let n = self.registers()[a as usize];
        if let Err(e) = self.dependent_gas_charge(g.cfe, n) {
            return Err(e);
        }
        let r = self.grow_stack_by(n);
        proceed_after(r)
    }

    /// CFSI: shrinks the call frame by `imm` bytes.
    pub fn execute_cfsi(&mut self, imm: u32, g: &GasCosts) -> (r: SimpleResult<ExecuteState>)
        requires
            old(self).inv(),
        ensures
            stepped(*old(self), *final(self), cfsi_outcome(*old(self), imm, *g), r),
    {
        if let Err(e) = self.gas_charge(g.cfsi) {
            return Err(e);
        }
        let r = self.shrink_stack_by(imm as u64);
        proceed_after(r)
    }

    /// CFS: shrinks the call frame by the bytes that register `a` holds, at the cost
    /// of CFSI.
    pub fn execute_cfs(&mut self, a: u8, g: &GasCosts) -> (r: SimpleResult<ExecuteState>)
        requires
            old(self).inv(),
            a < 64,
        ensures
            stepped(*old(self), *final(self), cfs_outcome(*old(self), a, *g), r),
    {
        if let Err(e) = self.gas_charge(g.cfsi) {
            return Err(e);
        }
        let n = self.registers()[a as usize];
        let r = self.shrink_stack_by(n);
        proceed_after(r)
    }

    /// PSHL, PSHH, POPL, POPH: pushes or pops the registers of `segment` that `mask`
    /// selects, at the cost `gas`.
    pub fn execute_stack_registers(&mut self, segment: ProgramRegistersSegment, push: bool, mask: u32, gas: u64) -> (r: SimpleResult<ExecuteState>)
        requires
            old(self).inv(),
        ensures
            stepped(*old(self), *final(self), stack_registers_outcome(*old(self), segment, push, mask, gas), r),
    {
        if let Err(e) = self.gas_charge(gas) {
            return Err(e);
        }
        let r = if push {
            self.push_selected_registers(segment, mask)
        } else {
            self.pop_selected_registers(segment, mask)
        };
        proceed_after(r)
    }

    /// ALOC: grows the heap by the bytes that register `a` holds.
    pub fn execute_aloc(&mut self, a: u8, g: &GasCosts) -> (r: SimpleResult<ExecuteState>)
        requires
            old(self).inv(),
            g.well_formed(),
            a < 64,
        ensures
            stepped(*old(self), *final(self), aloc_outcome(*old(self), a, *g), r),
    {
        let n = self.registers()[a as usize];
        if let Err(e) = self.dependent_gas_charge(g.aloc, n) {
            return Err(e);
        }
        let r = self.malloc(n);
        proceed_after(r)
    }

    /// MCL: zeroes the bytes that register `b` counts at the address in register `a`.
    pub fn execute_mcl(&mut self, a: u8, b: u8, g: &GasCosts) -> (r: SimpleResult<ExecuteState>)
        requires
            old(self).inv(),
            g.well_formed(),
            a < 64,
            b < 64,
        ensures
            stepped(*old(self), *final(self), mcl_outcome(*old(self), a, b, *g), r),
    {
        let len = self.registers()[b as usize];
        if let Err(e) = self.dependent_gas_charge(g.mcl, len) {
            return Err(e);
        }
        let addr = self.registers()[a as usize];
        let r = self.memclear(addr, len);
        proceed_after(r)
    }

    /// MCLI: zeroes `imm` bytes at the address in register `a`.
    pub fn execute_mcli(&mut self, a: u8, imm: u32, g: &GasCosts) -> (r: SimpleResult<ExecuteState>)
        requires
            old(self).inv(),
            g.well_formed(),
            a < 64,
        ensures
            stepped(*old(self), *final(self), mcli_outcome(*old(self), a, imm, *g), r),
    {
        if let Err(e) = self.dependent_gas_charge(g.mcli, imm as u64) {
            return Err(e);
        }
        let addr = self.registers()[a as usize];
        let r = self.memclear(addr, imm as u64);
        proceed_after(r)
    }

    /// MCP: copies the bytes that register `c` counts from the address in register `b`
    /// to the address in register `a`.
    pub fn execute_mcp(&mut self, a: u8, b: u8, c: u8, g: &GasCosts) -> (r: SimpleResult<ExecuteState>)
        requires
            old(self).inv(),
            g.well_formed(),
            a < 64,
            b < 64,
            c < 64,
        ensures
            stepped(*old(self), *final(self), mcp_outcome(*old(self), a, b, c, *g), r),
    {
        let len = self.registers()[c as usize];
        if let Err(e) = self.dependent_gas_charge(g.mcp, len) {
            return Err(e);
        }
        let dst = self.registers()[a as usize];
        let src = self.registers()[b as usize];
        let r = self.memcopy(dst, src, len);
        proceed_after(r)
    }

    /// MCPI: copies `imm` bytes from the address in register `b` to the address in
    /// register `a`.
    pub fn execute_mcpi(&mut self, a: u8, b: u8, imm: u32, g: &GasCosts) -> (r: SimpleResult<ExecuteState>)
        requires
            old(self).inv(),
            g.well_formed(),
            a < 64,
            b < 64,
        ensures
            stepped(*old(self), *final(self), mcpi_outcome(*old(self), a, b, imm, *g), r),
    {
        if let Err(e) = self.dependent_gas_charge(g.mcpi, imm as u64) {
            return Err(e);
        }
        let dst = self.registers()[a as usize];
        let src = self.registers()[b as usize];
        let r = self.memcopy(dst, src, imm as u64);
        proceed_after(r)
    }

    /// MEQ: sets register `a` to whether the bytes that register `d` counts at the
    /// addresses in registers `b` and `c` are equal.
    pub fn execute_meq(&mut self, a: u8, b: u8, c: u8, d: u8, g: &GasCosts) -> (r: SimpleResult<ExecuteState>)
        requires
            old(self).inv(),
            g.well_formed(),
            a < 64,
            b < 64,
            c < 64,
            d < 64,
        ensures
            stepped(*old(self), *final(self), meq_outcome(*old(self), a, b, c, d, *g), r),
            final(self).spec_memory() == old(self).spec_memory(),
    {
        let len = self.registers()[d as usize];
        if let Err(e) = self.dependent_gas_charge(g.meq, len) {
            return Err(e);
        }
        let x = self.registers()[b as usize];
        let y = self.registers()[c as usize];
        let r = self.memeq(a as usize, x, y, len);
        proceed_after(r)
    }

    /// LB: loads into register `a` the byte at the address in register `b` plus `imm`.
    pub fn execute_lb(&mut self, a: u8, b: u8, imm: u32, g: &GasCosts) -> (r: SimpleResult<ExecuteState>)
        requires
            old(self).inv(),
            a < 64,
            b < 64,
        ensures
            stepped(*old(self), *final(self), lb_outcome(*old(self), a, b, imm, *g), r),
            final(self).spec_memory() == old(self).spec_memory(),
    {
        if let Err(e) = self.gas_charge(g.lb) {
            return Err(e);
        }
        let addr = self.registers()[b as usize];
        let r = self.load_byte(a as usize, addr, imm as u64);
        proceed_after(r)
    }

    /// LW: loads into register `a` the word at the address in register `b` plus `imm`
    /// words.
    pub fn execute_lw(&mut self, a: u8, b: u8, imm: u32, g: &GasCosts) -> (r: SimpleResult<ExecuteState>)
        requires
            old(self).inv(),
            a < 64,
            b < 64,
            imm < 4096,
        ensures
            stepped(*old(self), *final(self), lw_outcome(*old(self), a, b, imm, *g), r),
            final(self).spec_memory() == old(self).spec_memory(),
    {
        if let Err(e) = self.gas_charge(g.lw) {
            return Err(e);
        }
        let addr = self.registers()[b as usize];
        let r = self.load_word(a as usize, addr, imm as u64);
        proceed_after(r)
    }

    /// SB: stores the low byte of register `b` at the address in register `a` plus `imm`.
    pub fn execute_sb(&mut self, a: u8, b: u8, imm: u32, g: &GasCosts) -> (r: SimpleResult<ExecuteState>)
        requires
            old(self).inv(),
            a < 64,
            b < 64,
        ensures
            stepped(*old(self), *final(self), sb_outcome(*old(self), a, b, imm, *g), r),
    {
        if let Err(e) = self.gas_charge(g.sb) {
            return Err(e);
        }
        let addr = self.registers()[a as usize];
        let value = self.registers()[b as usize];
        let r = self.store_byte(addr, value, imm as u64);
        proceed_after(r)
    }

    /// SW: stores register `b` at the address in register `a` plus `imm` words.
    pub fn execute_sw(&mut self, a: u8, b: u8, imm: u32, g: &GasCosts) -> (r: SimpleResult<ExecuteState>)
        requires
            old(self).inv(),
            a < 64,
            b < 64,
            imm < 4096,
        ensures
            stepped(*old(self), *final(self), sw_outcome(*old(self), a, b, imm, *g), r),
    {
        if let Err(e) = self.gas_charge(g.sw) {
            return Err(e);
        }
        let addr = self.registers()[a as usize];
        let value = self.registers()[b as usize];
        let r = self.store_word(addr, value, imm as u64);
        proceed_after(r)
    }

    /// Runs the arithmetic or logic instruction `word`; `None`, with nothing changed,
    /// when `word` is not one.
    pub fn execute_alu(&mut self, word: u32, g: &GasCosts) -> (r: Option<SimpleResult<ExecuteState>>)
        requires
            old(self).inv(),
        ensures
            match alu_outcome(*old(self), word, *g) {
                None => r is None && *final(self) == *old(self),
                Some(t) => r is Some && stepped(*old(self), *final(self), t, r->0),
            },
    {
        let op = opcode(word);
        let cost = if op == ADD { g.add }
            else if op == ADDI { g.addi }
            else if op == SUB { g.sub }
            else if op == SUBI { g.subi }
            else if op == MUL { g.mul }
            else if op == MULI { g.muli }
            else if op == DIV { g.div }
            else if op == DIVI { g.divi }
            else if op == MOD { g.mod_op }
            else if op == MODI { g.modi }
            else if op == AND { g.and_op }
            else if op == ANDI { g.andi }
            else if op == OR { g.or_op }
            else if op == ORI { g.ori }
            else if op == XOR { g.xor }
            else if op == XORI { g.xori }
            else if op == NOT { g.not_op }
            else if op == MOVE { g.move_op }
            else if op == MOVI { g.movi }
            else if op == EQ { g.eq_op }
            else if op == LT { g.lt }
            else if op == GT { g.gt }
            else if op == SLL { g.sll }
            else if op == SLLI { g.slli }
            else if op == SRL { g.srl }
            else if op == SRLI { g.srli }
            else if op == NOOP { g.noop }
            else { return None; };
        if let Err(e) = self.gas_charge(cost) {
            return Some(Err(e));
        }
        let a = ra(word) as usize;
        let vb = self.registers()[rb(word) as usize];
        let vc = self.registers()[rc(word) as usize];
        let i = imm12_of(word) as u64;
        let r = if op == ADD {
            self.alu_capture_overflow(a, vb as u128 + vc as u128)
        } else if op == ADDI {
            self.alu_capture_overflow(a, vb as u128 + i as u128)
        } else if op == SUB {
            self.alu_capture_overflow(a, wide_sub(vb, vc))
        } else if op == SUBI {
            self.alu_capture_overflow(a, wide_sub(vb, i))
        } else if op == MUL {
            self.alu_capture_overflow(a, wide_mul(vb, vc))
        } else if op == MULI {
            self.alu_capture_overflow(a, wide_mul(vb, i))
        } else if op == DIV {
            self.alu_error(a, if vc == 0 { 0 } else { vb / vc }, vc == 0)
        } else if op == DIVI {
            self.alu_error(a, if i == 0 { 0 } else { vb / i }, i == 0)
        } else if op == MOD {
            self.alu_error(a, if vc == 0 { 0 } else { vb % vc }, vc == 0)
        } else if op == MODI {
            self.alu_error(a, if i == 0 { 0 } else { vb % i }, i == 0)
        } else if op == AND {
            self.alu_set(a, vb & vc)
        } else if op == ANDI {
            self.alu_set(a, vb & i)
        } else if op == OR {
            self.alu_set(a, vb | vc)
        } else if op == ORI {
            self.alu_set(a, vb | i)
        } else if op == XOR {
            self.alu_set(a, vb ^ vc)
        } else if op == XORI {
            self.alu_set(a, vb ^ i)
        } else if op == NOT {
            self.alu_set(a, !vb)
        } else if op == MOVE {
            self.alu_set(a, vb)
        } else if op == MOVI {
            self.alu_set(a, imm18_of(word) as u64)
        } else if op == EQ {
            self.alu_set(a, if vb == vc { 1 } else { 0 })
        } else if op == LT {
            self.alu_set(a, if vb < vc { 1 } else { 0 })
        } else if op == GT {
            self.alu_set(a, if vb > vc { 1 } else { 0 })
        } else if op == SLL {
            self.alu_set(a, if vc < 64 { vb << vc } else { 0 })
        } else if op == SLLI {
            self.alu_set(a, if i < 64 { vb << i } else { 0 })
        } else if op == SRL {
            self.alu_set(a, if vc < 64 { vb >> vc } else { 0 })
        } else if op == SRLI {
            self.alu_set(a, if i < 64 { vb >> i } else { 0 })
        } else {
            self.alu_clear()
        };
        Some(proceed_after(r))
    }

    /// Runs the instruction `word`, if it is one of the operations that this library
    /// executes; otherwise changes nothing and returns `None`.
    pub fn execute_instruction(&mut self, word: u32, g: &GasCosts) -> (r: Option<SimpleResult<ExecuteState>>)
        requires
            old(self).inv(),
            g.well_formed(),
        ensures
            match executed(*old(self), word, *g) {
                None => r is None && *final(self) == *old(self),
                Some(t) => r is Some && stepped(*old(self), *final(self), t, r->0),
            },
    {
        let op = opcode(word);
        let a = ra(word);
        let b = rb(word);
        let c = rc(word);
        let d = rd(word);
        if op == JI {
            Some(self.execute_ji(imm24_of(word), g))
        } else if op == JNEI {
            Some(self.execute_jnei(a, b, imm12_of(word), g))
        } else if op == JNZI {
            Some(self.execute_jnzi(a, imm18_of(word), g))
        } else if op == JMP {
            Some(self.execute_jmp(a, g))
        } else if op == JNE {
            Some(self.execute_jne(a, b, c, g))
        } else if op == JAL {
            Some(self.execute_jal(a, b, imm12_of(word), g))
        } else if op == JMPF {
            Some(self.execute_jmpf(a, imm18_of(word), g))
        } else if op == JMPB {
            Some(self.execute_jmpb(a, imm18_of(word), g))
        } else if op == JNZF {
            Some(self.execute_jnzf(a, b, imm12_of(word), g))
        } else if op == JNZB {
            Some(self.execute_jnzb(a, b, imm12_of(word), g))
        } else if op == JNEF {
            Some(self.execute_jnef(a, b, c, imm06_of(word), g))
        } else if op == JNEB {
            Some(self.execute_jneb(a, b, c, imm06_of(word), g))
        } else if op == FLAG {
            Some(self.execute_flag(a, g))
        } else if op == CFEI {
            Some(self.execute_cfei(imm24_of(word), g))
        } else if op == CFE {
            Some(self.execute_cfe(a, g))
        } else if op == CFSI {
            Some(self.execute_cfsi(imm24_of(word), g))
        } else if op == CFS {
            Some(self.execute_cfs(a, g))
        } else if op == PSHL {
            Some(self.execute_stack_registers(ProgramRegistersSegment::Low, true, imm24_of(word), g.pshl))
        } else if op == PSHH {
            Some(self.execute_stack_registers(ProgramRegistersSegment::High, true, imm24_of(word), g.pshh))
        } else if op == POPL {
            Some(self.execute_stack_registers(ProgramRegistersSegment::Low, false, imm24_of(word), g.popl))
        } else if op == POPH {
            Some(self.execute_stack_registers(ProgramRegistersSegment::High, false, imm24_of(word), g.poph))
        } else if op == ALOC {
            Some(self.execute_aloc(a, g))
        } else if op == MCL {
            Some(self.execute_mcl(a, b, g))
        } else if op == MCLI {
            Some(self.execute_mcli(a, imm18_of(word), g))
        } else if op == MCP {
            Some(self.execute_mcp(a, b, c, g))
        } else if op == MCPI {
            Some(self.execute_mcpi(a, b, imm12_of(word), g))
        } else if op == MEQ {
            Some(self.execute_meq(a, b, c, d, g))
        } else if op == LB {
            Some(self.execute_lb(a, b, imm12_of(word), g))
        } else if op == LW {
            Some(self.execute_lw(a, b, imm12_of(word), g))
        } else if op == SB {
            Some(self.execute_sb(a, b, imm12_of(word), g))
        } else if op == SW {
            Some(self.execute_sw(a, b, imm12_of(word), g))
        } else {
            self.execute_alu(word, g)
        }
    }

    /// Runs the four bytes `bytes` as an instruction, given what the instruction set
    /// says of their operation code and whether it accepts the bytes; `predicate`
    /// tells whether a predicate is running. `None` when the operation is not one that
    /// this library executes.
    pub fn execute_decoded(
        &mut self,
        class: Option<bool>,
        valid: bool,
        bytes: [u8; 4],
        predicate: bool,
        g: &GasCosts,
    ) -> (r: Option<SimpleResult<ExecuteState>>)
        requires
            old(self).inv(),
            g.well_formed(),
        ensures
            match decoded_outcome(*old(self), class, valid, bytes@, predicate, *g) {
                None => r is None && *final(self) == *old(self),
                Some(t) => r is Some && stepped(*old(self), *final(self), t, r->0),
            },
    {
        match class {
            None => Some(Err(PanicOrBug::Panic(PanicReason::InvalidInstruction))),
            Some(allowed) => {
                if predicate && !allowed {
                    Some(Err(PanicOrBug::Panic(PanicReason::ContractInstructionNotAllowed)))
                } else if !valid {
                    Some(Err(PanicOrBug::Panic(PanicReason::InvalidInstruction)))
                } else {
                    self.execute_instruction(word_from_bytes(bytes), g)
                }
            },
        }
    }

    /// Runs the four bytes `bytes` as an instruction; `predicate` tells whether a
    /// predicate is running. The operation code and the bytes are checked against the
    /// instruction set first. `None` when the operation is not one that this library
    /// executes.
    pub fn instruction_inner(&mut self, bytes: [u8; 4], predicate: bool, g: &GasCosts) -> (r: Option<SimpleResult<ExecuteState>>)
        requires
            old(self).inv(),
            g.well_formed(),
        ensures
            match decoded_outcome(*old(self), opcode_class(bytes[0]), is_instruction(bytes@), bytes@, predicate, *g) {
                None => r is None && *final(self) == *old(self),
                Some(t) => r is Some && stepped(*old(self), *final(self), t, r->0),
            },
    {
        let class = opcode_info(bytes[0]);
        let valid = instruction_is_valid(bytes);
        self.execute_decoded(class, valid, bytes, predicate, g)
    }
}

} // verus!
