use crate::gas::GasCosts;
use crate::opcode::{
    imm12, imm12_of, imm18, imm18_of, imm24, imm24_of, opcode, opcode_of, ra, rb, rc, reg_a, reg_b, reg_c,
    word_from_bytes, word_of, ADD, ADDI, ALOC, AND, ANDI, CFE, CFEI, CFS, CFSI, DIV, DIVI, EQ, EXP, EXPI,
    FLAG, GM, GT, GTF, JAL, JI, JMP, JMPB, JMPF, JNE, JNEB, JNEF, JNEI, JNZB, JNZF, JNZI, LB, LHW, LQW, LT, LW,
    MCL, MCLI, MCP, MCPI, MEQ, MLDV, MLOG, MOD, MODI, MOVE, MOVI, MROO, MUL, MULI, NOOP, NOT, OR, ORI,
    POPH, POPL, PSHH, PSHL, SB, SHW, SLL, SLLI, SQW, SRL, SRLI, SUB, SUBI, SW, WDAM, WDCM, WDDV, WDMD,
    WDML, WDMM, WDOP, WQAM, WQCM, WQDV, WQMD, WQML, WQMM, WQOP, XOR, XORI,
};
use vstd::prelude::*;

verus! {

/// Settings of the just-in-time compiler that an interpreter carries: whether it is
/// enabled, and whether each compiled block is checked against the interpreter.
#[derive(Debug, Clone, Copy)]
pub struct JitState {
    enabled: bool,
    verify: bool,
}

impl JitState {
    /// Whether compiled blocks run.
    pub closed spec fn spec_enabled(&self) -> bool {
        self.enabled
    }

    /// Whether compiled blocks are checked.
    pub closed spec fn spec_verify(&self) -> bool {
        self.verify
    }

    /// Settings with the given switches.
    pub fn new(enabled: bool, verify: bool) -> (r: Self)
        ensures
            r.spec_enabled() == enabled,
            r.spec_verify() == verify,
    {
        JitState { enabled, verify }
    }

    /// Enables or disables the compiler.
    pub fn set_enabled(&mut self, enabled: bool)
        ensures
            final(self).spec_enabled() == enabled,
            final(self).spec_verify() == old(self).spec_verify(),
    {
        self.enabled = enabled;
    }

    /// Whether the compiler is enabled.
    pub fn is_enabled(&self) -> (r: bool)
        ensures
            r == self.spec_enabled(),
    {
        self.enabled
    }

    /// Whether each compiled block is checked against the interpreter.
    pub fn verify_enabled(&self) -> (r: bool)
        ensures
            r == self.spec_verify(),
    {
        self.verify
    }
}

/// The second operand of a compiled arithmetic operation.
#[derive(Debug, Clone, Copy, PartialEq, Eq, Structural)]
pub enum Rhs {
    /// A register.
    Reg(u8),
    /// An immediate value.
    Imm(u64),
}

/// A bitwise operation.
#[derive(Debug, Clone, Copy, PartialEq, Eq, Structural)]
pub enum BitOp {
    /// Bitwise and.
    And,
    /// Bitwise or.
    Or,
    /// Bitwise exclusive or.
    Xor,
}

/// A comparison.
#[derive(Debug, Clone, Copy, PartialEq, Eq, Structural)]
pub enum Cmp {
    /// Equal.
    Eq,
    /// Less than.
    Lt,
    /// Greater than.
    Gt,
}

/// The kind of a compiled operation.
#[derive(Debug, Clone, Copy, PartialEq, Eq, Structural)]
pub enum OpKind {
    /// Addition or subtraction that returns to the interpreter on overflow.
    AddSub { dest: u8, b: u8, rhs: Rhs, sub: bool },
    /// Move of an immediate.
    Movi { dest: u8, imm: u64 },
    /// Move of a register.
    Move { dest: u8, src: u8 },
    /// Bitwise negation.
    Not { dest: u8, src: u8 },
    /// Bitwise and, or, xor.
    Bit { dest: u8, b: u8, rhs: Rhs, op: BitOp },
    /// Comparison.
    Cmp { dest: u8, b: u8, c: u8, cc: Cmp },
    /// Shift.
    Shift { dest: u8, b: u8, rhs: Rhs, right: bool },
    /// No operation.
    Noop,
    /// Bounds-checked memory load.
    Load { dest: u8, base: u8, offset: u64, nbytes: u8 },
    /// Memory copy with an immediate length.
    Mcpi { dst: u8, src: u8, len: u32 },
    /// Move of the stack pointer.
    StackPtr { delta: i64 },
    /// Push or pop of a register set.
    StackRegs { base: u8, mask: u32, push: bool },
    /// Bounds- and ownership-checked memory store.
    Store { base: u8, value: u8, offset: u64, nbytes: u8 },
}


/// An instruction that a block runs natively, with the gas it charges.
#[derive(Debug, Clone, Copy, PartialEq, Eq, Structural)]
pub struct DecodedOp {
    pub kind: OpKind,
    pub gas: u64,
}

/// First register that programs may write.
pub const FIRST_WRITABLE: u8 = 16;

/// Longest copy with an immediate length that runs natively.
pub const MCPI_MAX_NATIVE: u64 = 128;

/// Most instructions in one block.
pub const MAX_BLOCK_OPS: usize = 256;

/// Most memory or stack operations in one block.
pub const MAX_MEM_OPS: usize = 32;

/// Size of an encoded instruction, as a word.
pub const INSTR_SIZE: u64 = 4;

/// Whether an operation touches memory or the stack pointer.
pub open spec fn mem_op(kind: OpKind) -> bool {
    kind is Load || kind is Mcpi || kind is StackPtr || kind is StackRegs || kind is Store
}

/// `kind` charging `gas`, if `dest` is a register that programs may write.
pub open spec fn to_writable(dest: u8, kind: OpKind, gas: u64) -> Option<DecodedOp> {
    if dest >= FIRST_WRITABLE {
        Some(DecodedOp { kind, gas })
    } else {
        None
    }
}

/// A load of `nbytes` bytes into register `a` from the address in `b` plus `imm`
/// elements.
pub open spec fn load_op(word: u32, nbytes: u8, gas: u64) -> Option<DecodedOp> {
    to_writable(
        reg_a(word),
        OpKind::Load { dest: reg_a(word), base: reg_b(word), offset: (imm12(word) * nbytes) as u64, nbytes },
        gas,
    )
}

/// A store of the low `nbytes` bytes of register `b` to the address in `a` plus
/// `imm` elements.
pub open spec fn store_op(word: u32, nbytes: u8, gas: u64) -> Option<DecodedOp> {
    Some(DecodedOp {
        kind: OpKind::Store { base: reg_a(word), value: reg_b(word), offset: (imm12(word) * nbytes) as u64, nbytes },
        gas,
    })
}

/// The native form of the instruction `word`, or `None` when a block cannot run it
/// natively: an instruction outside the supported subset, a write to a reserved
/// register, a copy of no bytes or of more than [`MCPI_MAX_NATIVE`], or a memory
/// writer while those are switched off (`native_mem`).
pub open spec fn decoded(word: u32, g: GasCosts, native_mem: bool) -> Option<DecodedOp> {
    let op = opcode_of(word);
    let a = reg_a(word);
    let b = reg_b(word);
    let c = reg_c(word);
    let i12 = imm12(word) as u64;
    if op == ADD {
        to_writable(a, OpKind::AddSub { dest: a, b, rhs: Rhs::Reg(c), sub: false }, g.add)
    } else if op == ADDI {
        to_writable(a, OpKind::AddSub { dest: a, b, rhs: Rhs::Imm(i12), sub: false }, g.addi)
    } else if op == SUB {
        to_writable(a, OpKind::AddSub { dest: a, b, rhs: Rhs::Reg(c), sub: true }, g.sub)
    } else if op == SUBI {
        to_writable(a, OpKind::AddSub { dest: a, b, rhs: Rhs::Imm(i12), sub: true }, g.subi)
    } else if op == MOVI {
        to_writable(a, OpKind::Movi { dest: a, imm: imm18(word) as u64 }, g.movi)
    } else if op == MOVE {
        to_writable(a, OpKind::Move { dest: a, src: b }, g.move_op)
    } else if op == NOT {
        to_writable(a, OpKind::Not { dest: a, src: b }, g.not_op)
    } else if op == AND {
        to_writable(a, OpKind::Bit { dest: a, b, rhs: Rhs::Reg(c), op: BitOp::And }, g.and_op)
    } else if op == ANDI {
        to_writable(a, OpKind::Bit { dest: a, b, rhs: Rhs::Imm(i12), op: BitOp::And }, g.andi)
    } else if op == OR {
        to_writable(a, OpKind::Bit { dest: a, b, rhs: Rhs::Reg(c), op: BitOp::Or }, g.or_op)
    } else if op == ORI {
        to_writable(a, OpKind::Bit { dest: a, b, rhs: Rhs::Imm(i12), op: BitOp::Or }, g.ori)
    } else if op == XOR {
        to_writable(a, OpKind::Bit { dest: a, b, rhs: Rhs::Reg(c), op: BitOp::Xor }, g.xor)
    } else if op == XORI {
        to_writable(a, OpKind::Bit { dest: a, b, rhs: Rhs::Imm(i12), op: BitOp::Xor }, g.xori)
    } else if op == EQ {
        to_writable(a, OpKind::Cmp { dest: a, b, c, cc: Cmp::Eq }, g.eq_op)
    } else if op == LT {
        to_writable(a, OpKind::Cmp { dest: a, b, c, cc: Cmp::Lt }, g.lt)
    } else if op == GT {
        to_writable(a, OpKind::Cmp { dest: a, b, c, cc: Cmp::Gt }, g.gt)
    } else if op == SLL {
        to_writable(a, OpKind::Shift { dest: a, b, rhs: Rhs::Reg(c), right: false }, g.sll)
    } else if op == SLLI {
        to_writable(a, OpKind::Shift { dest: a, b, rhs: Rhs::Imm(i12), right: false }, g.slli)
    } else if op == SRL {
        to_writable(a, OpKind::Shift { dest: a, b, rhs: Rhs::Reg(c), right: true }, g.srl)
    } else if op == SRLI {
        to_writable(a, OpKind::Shift { dest: a, b, rhs: Rhs::Imm(i12), right: true }, g.srli)
    } else if op == NOOP {
        Some(DecodedOp { kind: OpKind::Noop, gas: g.noop })
    } else if op == LB {
        load_op(word, 1, g.lb)
    } else if op == LQW {
        load_op(word, 2, g.lw)
    } else if op == LHW {
        load_op(word, 4, g.lw)
    } else if op == LW {
        load_op(word, 8, g.lw)
    } else if op == MCPI {
        if i12 == 0 || i12 > MCPI_MAX_NATIVE || !native_mem {
            None
        } else {
            Some(DecodedOp { kind: OpKind::Mcpi { dst: a, src: b, len: i12 as u32 }, gas: g.mcpi.spec_resolve(i12) as u64 })
        }
    } else if !native_mem {
        None
    } else if op == CFEI {
        Some(DecodedOp {
            kind: OpKind::StackPtr { delta: imm24(word) as i64 },
            gas: g.cfei.spec_resolve(imm24(word) as u64) as u64,
        })
    } else if op == CFSI {
        Some(DecodedOp { kind: OpKind::StackPtr { delta: (-(imm24(word) as int)) as i64 }, gas: g.cfsi })
    } else if op == PSHL {
        Some(DecodedOp { kind: OpKind::StackRegs { base: 16, mask: imm24(word), push: true }, gas: g.pshl })
    } else if op == PSHH {
        Some(DecodedOp { kind: OpKind::StackRegs { base: 40, mask: imm24(word), push: true }, gas: g.pshh })
    } else if op == POPL {
        Some(DecodedOp { kind: OpKind::StackRegs { base: 16, mask: imm24(word), push: false }, gas: g.popl })
    } else if op == POPH {
        Some(DecodedOp { kind: OpKind::StackRegs { base: 40, mask: imm24(word), push: false }, gas: g.poph })
    } else if op == SB {
        store_op(word, 1, g.sb)
    } else if op == SQW {
        store_op(word, 2, g.sw)
    } else if op == SHW {
        store_op(word, 4, g.sw)
    } else if op == SW {
        store_op(word, 8, g.sw)
    } else {
        None
    }
}

/// `kind` charging `gas`, if `dest` is a register that programs may write.
fn writable(dest: u8, kind: OpKind, gas: u64) -> (r: Option<DecodedOp>)
    ensures
        r == to_writable(dest, kind, gas),
{
    if dest >= FIRST_WRITABLE {
        Some(DecodedOp { kind, gas })
    } else {
        None
    }
}

/// A native load of `nbytes` bytes.
fn load_kind(word: u32, nbytes: u8, gas: u64) -> (r: Option<DecodedOp>)
    requires
        nbytes <= 8,
    ensures
        r == load_op(word, nbytes, gas),
{
    let imm = imm12_of(word) as u64;
    assert(imm * (nbytes as u64) <= 0x1000 * 8) by (nonlinear_arith)
        requires
            imm < 0x1000,
            nbytes <= 8,
    ;
    let offset = imm * nbytes as u64;
    writable(ra(word), OpKind::Load { dest: ra(word), base: rb(word), offset, nbytes }, gas)
}

/// A native store of `nbytes` bytes.
fn store_kind(word: u32, nbytes: u8, gas: u64) -> (r: Option<DecodedOp>)
    requires
        nbytes <= 8,
    ensures
        r == store_op(word, nbytes, gas),
{
    let imm = imm12_of(word) as u64;
    assert(imm * (nbytes as u64) <= 0x1000 * 8) by (nonlinear_arith)
        requires
            imm < 0x1000,
            nbytes <= 8,
    ;
    let offset = imm * nbytes as u64;
    Some(DecodedOp { kind: OpKind::Store { base: ra(word), value: rb(word), offset, nbytes }, gas })
}

/// Decodes one instruction word into the operation a block runs natively, or `None`
/// when the block must end before it or run it through the interpreter.
#[verifier::rlimit(40)]
pub fn decode_op(word: u32, g: &GasCosts, native_mem: bool) -> (r: Option<DecodedOp>)
    requires
        g.well_formed(),
    ensures
        r == decoded(word, *g, native_mem),
{
    let op = opcode(word);
    let a = ra(word);
    let b = rb(word);
    let c = rc(word);
    let i12 = imm12_of(word) as u64;
    if op == ADD {
        writable(a, OpKind::AddSub { dest: a, b, rhs: Rhs::Reg(c), sub: false }, g.add)
    } else if op == ADDI {
        writable(a, OpKind::AddSub { dest: a, b, rhs: Rhs::Imm(i12), sub: false }, g.addi)
    } else if op == SUB {
        writable(a, OpKind::AddSub { dest: a, b, rhs: Rhs::Reg(c), sub: true }, g.sub)
    } else if op == SUBI {
        writable(a, OpKind::AddSub { dest: a, b, rhs: Rhs::Imm(i12), sub: true }, g.subi)
    } else if op == MOVI {
        writable(a, OpKind::Movi { dest: a, imm: imm18_of(word) as u64 }, g.movi)
    } else if op == MOVE {
        writable(a, OpKind::Move { dest: a, src: b }, g.move_op)
    } else if op == NOT {
        writable(a, OpKind::Not { dest: a, src: b }, g.not_op)
    } else if op == AND {
        writable(a, OpKind::Bit { dest: a, b, rhs: Rhs::Reg(c), op: BitOp::And }, g.and_op)
    } else if op == ANDI {
        writable(a, OpKind::Bit { dest: a, b, rhs: Rhs::Imm(i12), op: BitOp::And }, g.andi)
    } else if op == OR {
        writable(a, OpKind::Bit { dest: a, b, rhs: Rhs::Reg(c), op: BitOp::Or }, g.or_op)
    } else if op == ORI {
        writable(a, OpKind::Bit { dest: a, b, rhs: Rhs::Imm(i12), op: BitOp::Or }, g.ori)
    } else if op == XOR {
        writable(a, OpKind::Bit { dest: a, b, rhs: Rhs::Reg(c), op: BitOp::Xor }, g.xor)
    } else if op == XORI {
        writable(a, OpKind::Bit { dest: a, b, rhs: Rhs::Imm(i12), op: BitOp::Xor }, g.xori)
    } else if op == EQ {
        writable(a, OpKind::Cmp { dest: a, b, c, cc: Cmp::Eq }, g.eq_op)
    } else if op == LT {
        writable(a, OpKind::Cmp { dest: a, b, c, cc: Cmp::Lt }, g.lt)
    } else if op == GT {
        writable(a, OpKind::Cmp { dest: a, b, c, cc: Cmp::Gt }, g.gt)
    } else if op == SLL {
        writable(a, OpKind::Shift { dest: a, b, rhs: Rhs::Reg(c), right: false }, g.sll)
    } else if op == SLLI {
        writable(a, OpKind::Shift { dest: a, b, rhs: Rhs::Imm(i12), right: false }, g.slli)
    } else if op == SRL {
        writable(a, OpKind::Shift { dest: a, b, rhs: Rhs::Reg(c), right: true }, g.srl)
    } else if op == SRLI {
        writable(a, OpKind::Shift { dest: a, b, rhs: Rhs::Imm(i12), right: true }, g.srli)
    } else if op == NOOP {
        Some(DecodedOp { kind: OpKind::Noop, gas: g.noop })
    } else if op == LB {
        load_kind(word, 1, g.lb)
    } else if op == LQW {
        load_kind(word, 2, g.lw)
    } else if op == LHW {
        load_kind(word, 4, g.lw)
    } else if op == LW {
        load_kind(word, 8, g.lw)
    } else if op == MCPI {
        if i12 == 0 || i12 > MCPI_MAX_NATIVE || !native_mem {
            None
        } else {
            Some(DecodedOp { kind: OpKind::Mcpi { dst: a, src: b, len: i12 as u32 }, gas: g.mcpi.resolve(i12) })
        }
    } else if !native_mem {
        None
    } else if op == CFEI {
        let imm = imm24_of(word);
        Some(DecodedOp { kind: OpKind::StackPtr { delta: imm as i64 }, gas: g.cfei.resolve(imm as u64) })
    } else if op == CFSI {
        let imm = imm24_of(word);
        Some(DecodedOp { kind: OpKind::StackPtr { delta: -(imm as i64) }, gas: g.cfsi })
    } else if op == PSHL {
        Some(DecodedOp { kind: OpKind::StackRegs { base: 16, mask: imm24_of(word), push: true }, gas: g.pshl })
    } else if op == PSHH {
        Some(DecodedOp { kind: OpKind::StackRegs { base: 40, mask: imm24_of(word), push: true }, gas: g.pshh })
    } else if op == POPL {
        Some(DecodedOp { kind: OpKind::StackRegs { base: 16, mask: imm24_of(word), push: false }, gas: g.popl })
    } else if op == POPH {
        Some(DecodedOp { kind: OpKind::StackRegs { base: 40, mask: imm24_of(word), push: false }, gas: g.poph })
    } else if op == SB {
        store_kind(word, 1, g.sb)
    } else if op == SQW {
        store_kind(word, 2, g.sw)
    } else if op == SHW {
        store_kind(word, 4, g.sw)
    } else if op == SW {
        store_kind(word, 8, g.sw)
    } else {
        None
    }
}

/// Operations that a block may run through the interpreter in its middle: they always
/// advance the program counter by one instruction, never push a call frame and never
/// change the code that runs.
pub open spec fn mid_block_thunkable(op: u8) -> bool {
    op == LB || op == LW || op == LQW || op == LHW || op == SB || op == SW
        || op == SQW || op == SHW || op == MCL || op == MCLI || op == MCP || op == MCPI
        || op == MEQ || op == ALOC || op == CFEI || op == CFSI || op == CFE || op == CFS
        || op == POPL || op == POPH || op == PSHL || op == PSHH || op == GTF || op == GM
        || op == MUL || op == MULI || op == DIV || op == DIVI || op == MOD || op == MODI
        || op == EXP || op == EXPI || op == MLOG || op == MROO || op == WDCM || op == WQCM
        || op == WDOP || op == WQOP || op == WDML || op == WQML || op == WDDV || op == WQDV
        || op == WDMD || op == WQMD || op == WDAM || op == WQAM || op == WDMM || op == WQMM
        || op == MLDV || op == FLAG || op == MOVE || op == NOOP
}

/// Control-flow operations that may end a block, run through the interpreter: they
/// set the program counter themselves and never change frames or the code that runs.
pub open spec fn terminator_thunkable(op: u8) -> bool {
    op == JAL || op == JMP || op == JI || op == JNE || op == JNEI || op == JNZI
        || op == JNZF || op == JNZB || op == JMPF || op == JMPB || op == JNEF
}

/// Whether `op` may run through the interpreter in the middle of a block.
pub fn is_thunkable(op: u8) -> (r: bool)
    ensures
        r == mid_block_thunkable(op),
{
    op == LB || op == LW || op == LQW || op == LHW || op == SB || op == SW
        || op == SQW || op == SHW || op == MCL || op == MCLI || op == MCP || op == MCPI
        || op == MEQ || op == ALOC || op == CFEI || op == CFSI || op == CFE || op == CFS
        || op == POPL || op == POPH || op == PSHL || op == PSHH || op == GTF || op == GM
        || op == MUL || op == MULI || op == DIV || op == DIVI || op == MOD || op == MODI
        || op == EXP || op == EXPI || op == MLOG || op == MROO || op == WDCM || op == WQCM
        || op == WDOP || op == WQOP || op == WDML || op == WQML || op == WDDV || op == WQDV
        || op == WDMD || op == WQMD || op == WDAM || op == WQAM || op == WDMM || op == WQMM
        || op == MLDV || op == FLAG || op == MOVE || op == NOOP
}

/// Whether `op` may end a block, run through the interpreter.
pub fn is_terminator_thunkable(op: u8) -> (r: bool)
    ensures
        r == terminator_thunkable(op),
{
    op == JAL || op == JMP || op == JI || op == JNE || op == JNEI || op == JNZI
        || op == JNZF || op == JNZB || op == JMPF || op == JMPB || op == JNEF
}

/// The slot of `op` in the table of operations that blocks run through the
/// interpreter: the mid-block ones first, then the terminators.
pub open spec fn thunk_slot(op: u8) -> Option<u32> {
    if op == LB {
        Some(0u32)
    } else if op == LW {
        Some(1u32)
    } else if op == LQW {
        Some(2u32)
    } else if op == LHW {
        Some(3u32)
    } else if op == SB {
        Some(4u32)
    } else if op == SW {
        Some(5u32)
    } else if op == SQW {
        Some(6u32)
    } else if op == SHW {
        Some(7u32)
    } else if op == MCL {
        Some(8u32)
    } else if op == MCLI {
        Some(9u32)
    } else if op == MCP {
        Some(10u32)
    } else if op == MCPI {
        Some(11u32)
    } else if op == MEQ {
        Some(12u32)
    } else if op == ALOC {
        Some(13u32)
    } else if op == CFEI {
        Some(14u32)
    } else if op == CFSI {
        Some(15u32)
    } else if op == CFE {
        Some(16u32)
    } else if op == CFS {
        Some(17u32)
    } else if op == POPL {
        Some(18u32)
    } else if op == POPH {
        Some(19u32)
    } else if op == PSHL {
        Some(20u32)
    } else if op == PSHH {
        Some(21u32)
    } else if op == GTF {
        Some(22u32)
    } else if op == GM {
        Some(23u32)
    } else if op == MUL {
        Some(24u32)
    } else if op == MULI {
        Some(25u32)
    } else if op == DIV {
        Some(26u32)
    } else if op == DIVI {
        Some(27u32)
    } else if op == MOD {
        Some(28u32)
    } else if op == MODI {
        Some(29u32)
    } else if op == EXP {
        Some(30u32)
    } else if op == EXPI {
        Some(31u32)
    } else if op == MLOG {
        Some(32u32)
    } else if op == MROO {
        Some(33u32)
    } else if op == WDCM {
        Some(34u32)
    } else if op == WQCM {
        Some(35u32)
    } else if op == WDOP {
        Some(36u32)
    } else if op == WQOP {
        Some(37u32)
    } else if op == WDML {
        Some(38u32)
    } else if op == WQML {
        Some(39u32)
    } else if op == WDDV {
        Some(40u32)
    } else if op == WQDV {
        Some(41u32)
    } else if op == WDMD {
        Some(42u32)
    } else if op == WQMD {
        Some(43u32)
    } else if op == WDAM {
        Some(44u32)
    } else if op == WQAM {
        Some(45u32)
    } else if op == WDMM {
        Some(46u32)
    } else if op == WQMM {
        Some(47u32)
    } else if op == MLDV {
        Some(48u32)
    } else if op == FLAG {
        Some(49u32)
    } else if op == MOVE {
        Some(50u32)
    } else if op == NOOP {
        Some(51u32)
    } else if op == JAL {
        Some(52u32)
    } else if op == JMP {
        Some(53u32)
    } else if op == JI {
        Some(54u32)
    } else if op == JNE {
        Some(55u32)
    } else if op == JNEI {
        Some(56u32)
    } else if op == JNZI {
        Some(57u32)
    } else if op == JNZF {
        Some(58u32)
    } else if op == JNZB {
        Some(59u32)
    } else if op == JMPF {
        Some(60u32)
    } else if op == JMPB {
        Some(61u32)
    } else if op == JNEF {
        Some(62u32)
    } else {
        None
    }
}

/// The slot of `op` in the table of operations that blocks run through the interpreter.
pub fn thunk_index(op: u8) -> (r: Option<u32>)
    ensures
        r == thunk_slot(op),
{
    if op == LB {
        Some(0)
    } else if op == LW {
        Some(1)
    } else if op == LQW {
        Some(2)
    } else if op == LHW {
        Some(3)
    } else if op == SB {
        Some(4)
    } else if op == SW {
        Some(5)
    } else if op == SQW {
        Some(6)
    } else if op == SHW {
        Some(7)
    } else if op == MCL {
        Some(8)
    } else if op == MCLI {
        Some(9)
    } else if op == MCP {
        Some(10)
    } else if op == MCPI {
        Some(11)
    } else if op == MEQ {
        Some(12)
    } else if op == ALOC {
        Some(13)
    } else if op == CFEI {
        Some(14)
    } else if op == CFSI {
        Some(15)
    } else if op == CFE {
        Some(16)
    } else if op == CFS {
        Some(17)
    } else if op == POPL {
        Some(18)
    } else if op == POPH {
        Some(19)
    } else if op == PSHL {
        Some(20)
    } else if op == PSHH {
        Some(21)
    } else if op == GTF {
        Some(22)
    } else if op == GM {
        Some(23)
    } else if op == MUL {
        Some(24)
    } else if op == MULI {
        Some(25)
    } else if op == DIV {
        Some(26)
    } else if op == DIVI {
        Some(27)
    } else if op == MOD {
        Some(28)
    } else if op == MODI {
        Some(29)
    } else if op == EXP {
        Some(30)
    } else if op == EXPI {
        Some(31)
    } else if op == MLOG {
        Some(32)
    } else if op == MROO {
        Some(33)
    } else if op == WDCM {
        Some(34)
    } else if op == WQCM {
        Some(35)
    } else if op == WDOP {
        Some(36)
    } else if op == WQOP {
        Some(37)
    } else if op == WDML {
        Some(38)
    } else if op == WQML {
        Some(39)
    } else if op == WDDV {
        Some(40)
    } else if op == WQDV {
        Some(41)
    } else if op == WDMD {
        Some(42)
    } else if op == WQMD {
        Some(43)
    } else if op == WDAM {
        Some(44)
    } else if op == WQAM {
        Some(45)
    } else if op == WDMM {
        Some(46)
    } else if op == WQMM {
        Some(47)
    } else if op == MLDV {
        Some(48)
    } else if op == FLAG {
        Some(49)
    } else if op == MOVE {
        Some(50)
    } else if op == NOOP {
        Some(51)
    } else if op == JAL {
        Some(52)
    } else if op == JMP {
        Some(53)
    } else if op == JI {
        Some(54)
    } else if op == JNE {
        Some(55)
    } else if op == JNEI {
        Some(56)
    } else if op == JNZI {
        Some(57)
    } else if op == JNZF {
        Some(58)
    } else if op == JNZB {
        Some(59)
    } else if op == JMPF {
        Some(60)
    } else if op == JMPB {
        Some(61)
    } else if op == JNEF {
        Some(62)
    } else {
        None
    }
}

/// Every operation that a block may run through the interpreter has a slot in the
/// table: the mid-block ones below the terminators, the terminators after them.
pub proof fn law_thunk_slots(op: u8)
    ensures
        mid_block_thunkable(op) ==> thunk_slot(op) is Some && thunk_slot(op)->0 < 52,
        terminator_thunkable(op) ==> thunk_slot(op) is Some && thunk_slot(op)->0 >= 52,
        thunk_slot(op) is Some ==> mid_block_thunkable(op) || terminator_thunkable(op),
{
}

/// One step of a compiled block.
#[derive(Debug, Clone, Copy, PartialEq, Eq, Structural)]
pub enum BlockStep {
    /// An operation run natively.
    Native(DecodedOp),
    /// An operation run through the interpreter in the middle of the block; `spec` is
    /// its slot in the table, `raw` the instruction word.
    Thunk { spec: u32, raw: u32 },
    /// A control-flow operation run through the interpreter as the block's last step.
    Term { spec: u32, raw: u32 },
    /// A jump-and-link run natively as the block's last step: the program counter
    /// becomes register `target_reg` plus `add`, and `ret` receives the return address.
    TermJal { ret: u8, target_reg: u8, add: u64, gas: u64 },
}

/// The native jump-and-link that ends a block, if `word` is a jump-and-link whose return
/// register is zero or writable and native memory operations are on.
pub open spec fn jal_term(word: u32, g: GasCosts, native_mem: bool) -> Option<BlockStep> {
    if !native_mem || opcode_of(word) != JAL {
        None
    } else if reg_a(word) != 0 && reg_a(word) < FIRST_WRITABLE {
        None
    } else {
        Some(BlockStep::TermJal { ret: reg_a(word), target_reg: reg_b(word), add: (imm12(word) * INSTR_SIZE) as u64, gas: g.jmp })
    }
}

/// The native jump-and-link that ends a block, if `word` allows one.
pub fn native_jal_term(word: u32, g: &GasCosts, native_mem: bool) -> (r: Option<BlockStep>)
    ensures
        r == jal_term(word, *g, native_mem),
{
    if !native_mem || opcode(word) != JAL {
        return None;
    }
    let ret = ra(word);
    if ret != 0 && ret < FIRST_WRITABLE {
        return None;
    }
    let add = (imm12_of(word) as u64) * INSTR_SIZE;
    Some(BlockStep::TermJal { ret, target_reg: rb(word), add, gas: g.jmp })
}

/// Whether an operation touches memory or the stack pointer; such operations are
/// costly to compile and are capped per block.
pub fn is_mem_op(kind: OpKind) -> (r: bool)
    ensures
        r == mem_op(kind),
{
    match kind {
        OpKind::Load { .. } | OpKind::Mcpi { .. } | OpKind::StackPtr { .. } | OpKind::StackRegs { .. }
        | OpKind::Store { .. } => true,
        _ => false,
    }
}

/// What the scan of a block does with one instruction.
#[derive(Debug, Clone, Copy, PartialEq, Eq, Structural)]
pub enum ScanStep {
    /// Append the step and go on; `mem` tells whether it counts against the memory
    /// operations of the block.
    Push { step: BlockStep, mem: bool },
    /// Append the step and end the block.
    Last(BlockStep),
    /// End the block before the instruction.
    Stop,
}

/// What the scan of a block does with the instruction `word`: `valid` tells whether the
/// instruction set accepts its bytes, `nonempty` whether the block has steps already and
/// `mem_ops` how many memory operations it has.
pub open spec fn scan_decision(
    valid: bool,
    word: u32,
    g: GasCosts,
    allow_thunks: bool,
    native_mem: bool,
    nonempty: bool,
    mem_ops: nat,
) -> ScanStep {
    let op = opcode_of(word);
    if !valid {
        ScanStep::Stop
    } else if decoded(word, g, native_mem) is Some {
        let d = decoded(word, g, native_mem)->0;
        if mem_op(d.kind) {
            if mem_ops >= MAX_MEM_OPS {
                ScanStep::Stop
            } else {
                ScanStep::Push { step: BlockStep::Native(d), mem: true }
            }
        } else {
            ScanStep::Push { step: BlockStep::Native(d), mem: false }
        }
    } else if allow_thunks && mid_block_thunkable(op) {
        match thunk_slot(op) {
            Some(i) => ScanStep::Push { step: BlockStep::Thunk { spec: i, raw: word }, mem: false },
            None => ScanStep::Stop,
        }
    } else if allow_thunks && nonempty && terminator_thunkable(op) {
        match jal_term(word, g, native_mem) {
            Some(t) => ScanStep::Last(t),
            None => match thunk_slot(op) {
                Some(i) => ScanStep::Last(BlockStep::Term { spec: i, raw: word }),
                None => ScanStep::Stop,
            },
        }
    } else {
        ScanStep::Stop
    }
}

/// What the scan of a block does with one instruction, given whether the instruction
/// set accepts its bytes.
pub fn next_scan_step(
    valid: bool,
    word: u32,
    g: &GasCosts,
    allow_thunks: bool,
    native_mem: bool,
    nonempty: bool,
    mem_ops: usize,
) -> (r: ScanStep)
    requires
        g.well_formed(),
    ensures
        r == scan_decision(valid, word, *g, allow_thunks, native_mem, nonempty, mem_ops as nat),
{
    if !valid {
        return ScanStep::Stop;
    }
    let op = opcode(word);
    match decode_op(word, g, native_mem) {
        Some(d) => {
            if is_mem_op(d.kind) {
                if mem_ops >= MAX_MEM_OPS {
                    ScanStep::Stop
                } else {
                    ScanStep::Push { step: BlockStep::Native(d), mem: true }
                }
            } else {
                ScanStep::Push { step: BlockStep::Native(d), mem: false }
            }
        },
        None => {
            if allow_thunks && is_thunkable(op) {
                match thunk_index(op) {
                    Some(i) => ScanStep::Push { step: BlockStep::Thunk { spec: i, raw: word }, mem: false },
                    None => ScanStep::Stop,
                }
            } else if allow_thunks && nonempty && is_terminator_thunkable(op) {
                match native_jal_term(word, g, native_mem) {
                    Some(t) => ScanStep::Last(t),
                    None => match thunk_index(op) {
                        Some(i) => ScanStep::Last(BlockStep::Term { spec: i, raw: word }),
                        None => ScanStep::Stop,
                    },
                }
            } else {
                ScanStep::Stop
            }
        },
    }
}

/// Whether the instruction set accepts the four bytes as an instruction.
pub uninterp spec fn is_instruction(bytes: Seq<u8>) -> bool;

/// Whether `fuel_asm::Instruction::try_from` accepts the four bytes: their first byte
/// is an operation code and the bits that operation leaves unused are zero. The
/// contract names that answer and claims nothing more of it.
#[verifier::external_body]
pub(crate) fn instruction_is_valid(bytes: [u8; 4]) -> (r: bool)
    ensures
        r == is_instruction(bytes@),
{
    fuel_asm::Instruction::try_from(bytes).is_ok()
}

/// The steps of the block that a scan adds to `steps` from byte `pos` of `window` on,
/// with `mem_ops` memory operations counted so far.
pub open spec fn scan_from(
    window: Seq<u8>,
    g: GasCosts,
    allow_thunks: bool,
    native_mem: bool,
    pos: int,
    steps: Seq<BlockStep>,
    mem_ops: nat,
) -> Seq<BlockStep>
    decreases window.len() - pos,
{
    if pos < 0 || pos + 4 > window.len() || steps.len() >= MAX_BLOCK_OPS {
        steps
    } else {
        let bytes = window.subrange(pos, pos + 4);
        let word = word_of(window[pos], window[pos + 1], window[pos + 2], window[pos + 3]);
        match scan_decision(is_instruction(bytes), word, g, allow_thunks, native_mem, steps.len() > 0, mem_ops) {
            ScanStep::Push { step, mem } => scan_from(
                window,
                g,
                allow_thunks,
                native_mem,
                pos + 4,
                steps.push(step),
                if mem { mem_ops + 1 } else { mem_ops },
            ),
            ScanStep::Last(step) => steps.push(step),
            ScanStep::Stop => steps,
        }
    }
}

/// The block that starts at the beginning of `window`: native operations and, when
/// `allow_thunks`, operations run through the interpreter, up to the first instruction
/// that must end the block, at most [`MAX_BLOCK_OPS`] steps and [`MAX_MEM_OPS`] memory
/// operations. A control-flow operation after at least one step is kept as the last step.
pub fn scan_block(window: &[u8], g: &GasCosts, allow_thunks: bool, native_mem: bool) -> (r: Vec<BlockStep>)
    requires
        g.well_formed(),
    ensures
        r@ == scan_from(window@, *g, allow_thunks, native_mem, 0, seq![], 0),
        r@.len() <= MAX_BLOCK_OPS,
        mem_steps(r@) <= MAX_MEM_OPS,
        forall|i: int| 0 <= i < r@.len() - 1 ==> !ends_block(#[trigger] r@[i]),
        r@.len() > 0 && ends_block(r@.last()) ==> r@.len() >= 2,
        !allow_thunks ==> forall|i: int| 0 <= i < r@.len() ==> #[trigger] r@[i] is Native,
{
    proof {
        law_block_shape(window@, *g, allow_thunks, native_mem);
    }
    let mut steps: Vec<BlockStep> = Vec::new();
    let mut mem_ops: usize = 0;
    let mut pos: usize = 0;
    while window.len() >= 4 && pos <= window.len() - 4 && steps.len() < MAX_BLOCK_OPS
        invariant_except_break
            pos <= window@.len(),
            steps@.len() <= MAX_BLOCK_OPS,
            mem_ops <= MAX_MEM_OPS,
            g.well_formed(),
            scan_from(window@, *g, allow_thunks, native_mem, pos as int, steps@, mem_ops as nat)
                == scan_from(window@, *g, allow_thunks, native_mem, 0, seq![], 0),
        ensures
            steps@ == scan_from(window@, *g, allow_thunks, native_mem, 0, seq![], 0),
            steps@.len() <= MAX_BLOCK_OPS,
        decreases window@.len() - pos,
    {
        let bytes: [u8; 4] = [window[pos], window[pos + 1], window[pos + 2], window[pos + 3]];
        proof {
            assert(bytes@ =~= window@.subrange(pos as int, pos as int + 4));
        }
        let valid = instruction_is_valid(bytes);
        let word = word_from_bytes(bytes);
        let nonempty = steps.len() > 0;
        match next_scan_step(valid, word, g, allow_thunks, native_mem, nonempty, mem_ops) {
            ScanStep::Push { step, mem } => {
                steps.push(step);
                if mem {
                    mem_ops = mem_ops + 1;
                }
                pos = pos + 4;
            },
            ScanStep::Last(step) => {
                steps.push(step);
                break;
            },
            ScanStep::Stop => {
                break;
            },
        }
    }
    steps
}

/// The number of native memory or stack operations among `steps`.
pub open spec fn mem_steps(steps: Seq<BlockStep>) -> nat
    decreases steps.len(),
{
    if steps.len() == 0 {
        0
    } else {
        mem_steps(steps.drop_last()) + match steps.last() {
            BlockStep::Native(d) => if mem_op(d.kind) { 1nat } else { 0nat },
            _ => 0nat,
        }
    }
}

/// Whether a step ends its block with a control-flow operation.
pub open spec fn ends_block(s: BlockStep) -> bool {
    s is Term || s is TermJal
}

/// The shape of what the scan adds to a well-shaped prefix: from position `pos`
/// with the steps `steps` so far, holding `mem_ops` native memory operations, the
/// finished block keeps every bound that `law_block_shape` states.
pub proof fn lemma_scan_shape(
    window: Seq<u8>,
    g: GasCosts,
    allow_thunks: bool,
    native_mem: bool,
    pos: int,
    steps: Seq<BlockStep>,
    mem_ops: nat,
)
    requires
        steps.len() <= MAX_BLOCK_OPS,
        mem_steps(steps) == mem_ops,
        mem_ops <= MAX_MEM_OPS,
        forall|i: int| 0 <= i < steps.len() ==> !ends_block(#[trigger] steps[i]),
        !allow_thunks ==> forall|i: int| 0 <= i < steps.len() ==> #[trigger] steps[i] is Native,
    ensures
        ({
            let r = scan_from(window, g, allow_thunks, native_mem, pos, steps, mem_ops);
            &&& r.len() <= MAX_BLOCK_OPS
            &&& mem_steps(r) <= MAX_MEM_OPS
            &&& steps.len() <= r.len()
            &&& r.subrange(0, steps.len() as int) == steps
            &&& forall|i: int| 0 <= i < r.len() - 1 ==> !ends_block(#[trigger] r[i])
            &&& r.len() > 0 && ends_block(r.last()) ==> r.len() >= 2
            &&& !allow_thunks ==> forall|i: int| 0 <= i < r.len() ==> #[trigger] r[i] is Native
        }),
    decreases window.len() - pos,
{
    let r = scan_from(window, g, allow_thunks, native_mem, pos, steps, mem_ops);
    if pos < 0 || pos + 4 > window.len() || steps.len() >= MAX_BLOCK_OPS {
        assert(r.subrange(0, steps.len() as int) =~= steps);
    } else {
        let bytes = window.subrange(pos, pos + 4);
        let word = word_of(window[pos], window[pos + 1], window[pos + 2], window[pos + 3]);
        match scan_decision(is_instruction(bytes), word, g, allow_thunks, native_mem, steps.len() > 0, mem_ops) {
            ScanStep::Push { step, mem } => {
                let next = steps.push(step);
                let n2 = if mem { mem_ops + 1 } else { mem_ops };
                assert(next.drop_last() =~= steps);
                assert(next.len() <= MAX_BLOCK_OPS);
                assert(mem_steps(next) == n2);
                assert forall|i: int| 0 <= i < next.len() implies !ends_block(#[trigger] next[i]) by {
                    if i < steps.len() {
                        assert(next[i] == steps[i]);
                    }
                }
                lemma_scan_shape(window, g, allow_thunks, native_mem, pos + 4, next, n2);
                assert(r.subrange(0, next.len() as int).subrange(0, steps.len() as int) =~= r.subrange(0, steps.len() as int));
                assert(next.subrange(0, steps.len() as int) =~= steps);
            },
            ScanStep::Last(step) => {
                let next = steps.push(step);
                assert(next.drop_last() =~= steps);
                assert(mem_steps(next) == mem_ops);
                assert(next.subrange(0, steps.len() as int) =~= steps);
                assert forall|i: int| 0 <= i < next.len() - 1 implies !ends_block(#[trigger] next[i]) by {
                    assert(next[i] == steps[i]);
                }
            },
            ScanStep::Stop => {
                assert(r.subrange(0, steps.len() as int) =~= steps);
            },
        }
    }
}

/// A block never holds more than [`MAX_BLOCK_OPS`] steps nor more than
/// [`MAX_MEM_OPS`] native memory operations; a control-flow operation is only ever its
/// last step, and never its only one; without operations run through the interpreter
/// every step is native.
pub proof fn law_block_shape(window: Seq<u8>, g: GasCosts, allow_thunks: bool, native_mem: bool)
    ensures
        ({
            let r = scan_from(window, g, allow_thunks, native_mem, 0, seq![], 0);
            &&& r.len() <= MAX_BLOCK_OPS
            &&& mem_steps(r) <= MAX_MEM_OPS
            &&& forall|i: int| 0 <= i < r.len() - 1 ==> !ends_block(#[trigger] r[i])
            &&& r.len() > 0 && ends_block(r.last()) ==> r.len() >= 2
            &&& !allow_thunks ==> forall|i: int| 0 <= i < r.len() ==> #[trigger] r[i] is Native
        }),
{
    lemma_scan_shape(window, g, allow_thunks, native_mem, 0, seq![], 0);
}

/// The instruction word at byte `pos` of `window`, read big-endian.
pub open spec fn word_at(window: Seq<u8>, pos: int) -> u32 {
    word_of(window[pos], window[pos + 1], window[pos + 2], window[pos + 3])
}

/// Whether the block step `s` runs the instruction `word`: natively as its decoding,
/// through the interpreter by its slot with the word itself, or as the native
/// jump-and-link it allows.
pub open spec fn step_runs(s: BlockStep, word: u32, g: GasCosts, native_mem: bool) -> bool {
    match s {
        BlockStep::Native(d) => decoded(word, g, native_mem) == Some(d),
        BlockStep::Thunk { spec, raw } => raw == word && thunk_slot(opcode_of(word)) == Some(spec),
        BlockStep::Term { spec, raw } => raw == word && thunk_slot(opcode_of(word)) == Some(spec),
        BlockStep::TermJal { .. } => jal_term(word, g, native_mem) == Some(s),
    }
}

/// Whether step `i` of a block runs the `i`-th instruction of `window`, one that the
/// instruction set accepts.
pub open spec fn runs_code_at(window: Seq<u8>, g: GasCosts, native_mem: bool, i: int, s: BlockStep) -> bool {
    &&& 4 * i + 4 <= window.len()
    &&& is_instruction(window.subrange(4 * i, 4 * i + 4))
    &&& step_runs(s, word_at(window, 4 * i), g, native_mem)
}

/// From position `pos`, four bytes per step already taken, the scan keeps every step
/// tied to the instruction it runs.
pub proof fn lemma_scan_follows_code(
    window: Seq<u8>,
    g: GasCosts,
    allow_thunks: bool,
    native_mem: bool,
    pos: int,
    steps: Seq<BlockStep>,
    mem_ops: nat,
)
    requires
        pos == 4 * steps.len(),
        forall|i: int| 0 <= i < steps.len() ==> runs_code_at(window, g, native_mem, i, #[trigger] steps[i]),
    ensures
        ({
            let r = scan_from(window, g, allow_thunks, native_mem, pos, steps, mem_ops);
            forall|i: int| 0 <= i < r.len() ==> runs_code_at(window, g, native_mem, i, #[trigger] r[i])
        }),
    decreases window.len() - pos,
{
    if pos < 0 || pos + 4 > window.len() || steps.len() >= MAX_BLOCK_OPS {
    } else {
        let bytes = window.subrange(pos, pos + 4);
        let word = word_of(window[pos], window[pos + 1], window[pos + 2], window[pos + 3]);
        match scan_decision(is_instruction(bytes), word, g, allow_thunks, native_mem, steps.len() > 0, mem_ops) {
            ScanStep::Push { step, mem } => {
                let next = steps.push(step);
                assert(word_at(window, pos) == word);
                assert(is_instruction(bytes));
                assert(step_runs(step, word, g, native_mem));
                assert(window.subrange(4 * (steps.len() as int), 4 * (steps.len() as int) + 4) == bytes);
                assert(runs_code_at(window, g, native_mem, steps.len() as int, step));
                assert forall|i: int| 0 <= i < next.len() implies runs_code_at(window, g, native_mem, i, #[trigger] next[i]) by {
                    if i < steps.len() {
                        assert(next[i] == steps[i]);
                    }
                }
                let n2 = if mem { mem_ops + 1 } else { mem_ops };
                lemma_scan_follows_code(window, g, allow_thunks, native_mem, pos + 4, next, n2);
                assert(scan_from(window, g, allow_thunks, native_mem, pos, steps, mem_ops)
                    == scan_from(window, g, allow_thunks, native_mem, pos + 4, next, n2));
            },
            ScanStep::Last(step) => {
                let next = steps.push(step);
                assert(word_at(window, pos) == word);
                assert(is_instruction(bytes));
                assert(step_runs(step, word, g, native_mem));
                assert(window.subrange(4 * (steps.len() as int), 4 * (steps.len() as int) + 4) == bytes);
                assert(runs_code_at(window, g, native_mem, steps.len() as int, step));
                assert forall|i: int| 0 <= i < next.len() implies runs_code_at(window, g, native_mem, i, #[trigger] next[i]) by {
                    if i < steps.len() {
                        assert(next[i] == steps[i]);
                    }
                }
                assert(scan_from(window, g, allow_thunks, native_mem, pos, steps, mem_ops) == next);
            },
            ScanStep::Stop => {},
        }
    }
}

/// A block is the code it starts at, instruction by instruction: its `i`-th step runs
/// the `i`-th instruction of the window, which the instruction set accepts, natively
/// as its decoding or through the interpreter with the word itself; no instruction is
/// skipped or reordered.
pub proof fn law_block_follows_code(window: Seq<u8>, g: GasCosts, allow_thunks: bool, native_mem: bool)
    ensures
        ({
            let r = scan_from(window, g, allow_thunks, native_mem, 0, seq![], 0);
            forall|i: int| 0 <= i < r.len() ==> runs_code_at(window, g, native_mem, i, #[trigger] r[i])
        }),
{
    lemma_scan_follows_code(window, g, allow_thunks, native_mem, 0, seq![], 0);
}

/// The register operand of a relative jump, which tells whether its target is known
/// when the block is compiled (the zero register) or only when it runs; `None` for
/// other instructions.
pub open spec fn dynamic_register(word: u32) -> Option<u8> {
    let op = opcode_of(word);
    if op == JMPF || op == JMPB {
        Some(reg_a(word))
    } else if op == JNZF || op == JNZB {
        Some(reg_b(word))
    } else if op == JNEF || op == JNEB {
        Some(reg_c(word))
    } else {
        None
    }
}

/// The register operand of a relative jump, if `word` is one.
pub fn dyn_reg(word: u32) -> (r: Option<u8>)
    ensures
        r == dynamic_register(word),
{
    let op = opcode(word);
    if op == JMPF || op == JMPB {
        Some(ra(word))
    } else if op == JNZF || op == JNZB {
        Some(rb(word))
    } else if op == JNEF || op == JNEB {
        Some(rc(word))
    } else {
        None
    }
}

/// How a block terminator is counted: 0 when it is no relative jump, 1 when its
/// register operand is the zero register, so that its target is static, and 2 when
/// its target is only known at run time.
pub fn terminator_class(word: u32) -> (r: u8)
    ensures
        r == match dynamic_register(word) {
            None => 0u8,
            Some(0) => 1u8,
            Some(_) => 2u8,
        },
{
    match dyn_reg(word) {
        None => 0,
        Some(0) => 1,
        Some(_) => 2,
    }
}

/// FNV-1a offset basis.
pub const FNV_OFFSET: u64 = 0xcbf29ce484222325;

/// FNV-1a prime.
pub const FNV_PRIME: u64 = 0x100000001b3;

/// FNV-1a over the first `n` words.
pub open spec fn fingerprint(costs: Seq<u64>, n: nat) -> u64
    decreases n,
{
    if n == 0 {
        FNV_OFFSET
    } else {
        (((fingerprint(costs, (n - 1) as nat) ^ costs[n - 1]) as int * FNV_PRIME as int) % 0x10000000000000000) as u64
    }
}

/// FNV-1a over words.
pub fn fnv_words(costs: &[u64]) -> (r: u64)
    ensures
        r == fingerprint(costs@, costs@.len()),
{
    let mut h: u64 = FNV_OFFSET;
    let mut i: usize = 0;
    while i < costs.len()
        invariant
            i <= costs@.len(),
            h == fingerprint(costs@, i as nat),
        decreases costs@.len() - i,
    {
        h = h ^ costs[i];
        h = h.wrapping_mul(FNV_PRIME);
        i = i + 1;
    }
    h
}

/// The gas costs that compiled blocks charge for themselves, in a fixed order; each
/// dependent cost is pinned by two points.
pub open spec fn cost_words(g: GasCosts) -> Seq<u64> {
    seq![
        g.add, g.addi, g.sub, g.subi, g.and_op, g.andi, g.or_op, g.ori, g.xor, g.xori, g.not_op,
        g.move_op, g.movi, g.eq_op, g.lt, g.gt, g.sll, g.slli, g.srl, g.srli, g.noop, g.lb, g.lw,
        g.mcpi.spec_resolve(0) as u64, g.mcpi.spec_resolve(0x1000000) as u64,
        g.cfei.spec_resolve(0) as u64, g.cfei.spec_resolve(0x1000000) as u64,
        g.cfsi, g.pshl, g.pshh, g.popl, g.poph, g.jmp, g.sb, g.sw,
    ]
}

/// A fingerprint of the gas costs compiled into blocks, so that a block compiled
/// under one gas schedule is never reused under another.
pub fn gas_fingerprint(g: &GasCosts) -> (r: u64)
    requires
        g.well_formed(),
    ensures
        r == fingerprint(cost_words(*g), 35),
{
    let costs: [u64; 35] = [
        g.add, g.addi, g.sub, g.subi, g.and_op, g.andi, g.or_op, g.ori, g.xor, g.xori, g.not_op,
        g.move_op, g.movi, g.eq_op, g.lt, g.gt, g.sll, g.slli, g.srl, g.srli, g.noop, g.lb, g.lw,
        g.mcpi.resolve(0), g.mcpi.resolve(0x1000000),
        g.cfei.resolve(0), g.cfei.resolve(0x1000000),
        g.cfsi, g.pshl, g.pshh, g.popl, g.poph, g.jmp, g.sb, g.sw,
    ];
    proof {
        assert(costs@ =~= cost_words(*g));
    }
    fnv_words(&costs)
}

} // verus!
