use vstd::prelude::*;

verus! {

// Operation codes of the FuelVM instruction set: the first byte of each encoded
// instruction. Only those that the block compiler or the interpreter tells apart
// are listed.

pub const ADD: u8 = 0x10;
pub const AND: u8 = 0x11;
pub const DIV: u8 = 0x12;
pub const EQ: u8 = 0x13;
pub const EXP: u8 = 0x14;
pub const GT: u8 = 0x15;
pub const LT: u8 = 0x16;
pub const MLOG: u8 = 0x17;
pub const MROO: u8 = 0x18;
pub const MOD: u8 = 0x19;
pub const MOVE: u8 = 0x1A;
pub const MUL: u8 = 0x1B;
pub const NOT: u8 = 0x1C;
pub const OR: u8 = 0x1D;
pub const SLL: u8 = 0x1E;
pub const SRL: u8 = 0x1F;
pub const SUB: u8 = 0x20;
pub const XOR: u8 = 0x21;
pub const MLDV: u8 = 0x22;
pub const RET: u8 = 0x24;
pub const RVRT: u8 = 0x36;
pub const ALOC: u8 = 0x26;
pub const MCL: u8 = 0x27;
pub const MCP: u8 = 0x28;
pub const MEQ: u8 = 0x29;
pub const NOOP: u8 = 0x47;
pub const FLAG: u8 = 0x48;
pub const JMP: u8 = 0x4A;
pub const JNE: u8 = 0x4B;
pub const ADDI: u8 = 0x50;
pub const ANDI: u8 = 0x51;
pub const DIVI: u8 = 0x52;
pub const EXPI: u8 = 0x53;
pub const MODI: u8 = 0x54;
pub const MULI: u8 = 0x55;
pub const ORI: u8 = 0x56;
pub const SLLI: u8 = 0x57;
pub const SRLI: u8 = 0x58;
pub const SUBI: u8 = 0x59;
pub const XORI: u8 = 0x5A;
pub const JNEI: u8 = 0x5B;
pub const LB: u8 = 0x5C;
pub const LW: u8 = 0x5D;
pub const SB: u8 = 0x5E;
pub const SW: u8 = 0x5F;
pub const MCPI: u8 = 0x60;
pub const GTF: u8 = 0x61;
pub const LQW: u8 = 0x62;
pub const LHW: u8 = 0x63;
pub const SQW: u8 = 0x64;
pub const SHW: u8 = 0x65;
pub const MCLI: u8 = 0x70;
pub const GM: u8 = 0x71;
pub const MOVI: u8 = 0x72;
pub const JNZI: u8 = 0x73;
pub const JMPF: u8 = 0x74;
pub const JMPB: u8 = 0x75;
pub const JNZF: u8 = 0x76;
pub const JNZB: u8 = 0x77;
pub const JNEF: u8 = 0x78;
pub const JNEB: u8 = 0x79;
pub const JI: u8 = 0x90;
pub const CFEI: u8 = 0x91;
pub const CFSI: u8 = 0x92;
pub const CFE: u8 = 0x93;
pub const CFS: u8 = 0x94;
pub const PSHL: u8 = 0x95;
pub const PSHH: u8 = 0x96;
pub const POPL: u8 = 0x97;
pub const POPH: u8 = 0x98;
pub const JAL: u8 = 0x99;
pub const WDCM: u8 = 0xa0;
pub const WQCM: u8 = 0xa1;
pub const WDOP: u8 = 0xa2;
pub const WQOP: u8 = 0xa3;
pub const WDML: u8 = 0xa4;
pub const WQML: u8 = 0xa5;
pub const WDDV: u8 = 0xa6;
pub const WQDV: u8 = 0xa7;
pub const WDMD: u8 = 0xa8;
pub const WQMD: u8 = 0xa9;
pub const WDAM: u8 = 0xaa;
pub const WQAM: u8 = 0xab;
pub const WDMM: u8 = 0xac;
pub const WQMM: u8 = 0xad;

/// The operation code of an encoded instruction word: its most significant byte.
pub open spec fn opcode_of(word: u32) -> u8 {
    (word >> 24u32) as u8
}

/// The register in the first operand slot (bits 18 to 23).
pub open spec fn reg_a(word: u32) -> u8 {
    ((word >> 18u32) & 0x3fu32) as u8
}

/// The register in the second operand slot (bits 12 to 17).
pub open spec fn reg_b(word: u32) -> u8 {
    ((word >> 12u32) & 0x3fu32) as u8
}

/// The register in the third operand slot (bits 6 to 11).
pub open spec fn reg_c(word: u32) -> u8 {
    ((word >> 6u32) & 0x3fu32) as u8
}

/// The register in the fourth operand slot (bits 0 to 5).
pub open spec fn reg_d(word: u32) -> u8 {
    (word & 0x3fu32) as u8
}

/// The 6-bit immediate (bits 0 to 5).
pub open spec fn imm06(word: u32) -> u32 {
    word & 0x3fu32
}

/// The 12-bit immediate (bits 0 to 11).
pub open spec fn imm12(word: u32) -> u32 {
    word & 0xfffu32
}

/// The 18-bit immediate (bits 0 to 17).
pub open spec fn imm18(word: u32) -> u32 {
    word & 0x3ffffu32
}

/// The 24-bit immediate (bits 0 to 23).
pub open spec fn imm24(word: u32) -> u32 {
    word & 0xffffffu32
}

/// The big-endian word of four instruction bytes.
pub open spec fn word_of(b0: u8, b1: u8, b2: u8, b3: u8) -> u32 {
    ((b0 as u32) << 24u32) | ((b1 as u32) << 16u32) | ((b2 as u32) << 8u32) | (b3 as u32)
}

/// The operation code of a word.
pub fn opcode(word: u32) -> (r: u8)
    ensures
        r == opcode_of(word),
{
    (word >> 24u32) as u8
}

/// The register in the first operand slot.
pub fn ra(word: u32) -> (r: u8)
    ensures
        r == reg_a(word),
        r < 64,
{
    let r = ((word >> 18u32) & 0x3fu32) as u8;
    assert(((word >> 18u32) & 0x3fu32) < 64) by (bit_vector);
    r
}

/// The register in the second operand slot.
pub fn rb(word: u32) -> (r: u8)
    ensures
        r == reg_b(word),
        r < 64,
{
    let r = ((word >> 12u32) & 0x3fu32) as u8;
    assert(((word >> 12u32) & 0x3fu32) < 64) by (bit_vector);
    r
}

/// The register in the third operand slot.
pub fn rc(word: u32) -> (r: u8)
    ensures
        r == reg_c(word),
        r < 64,
{
    let r = ((word >> 6u32) & 0x3fu32) as u8;
    assert(((word >> 6u32) & 0x3fu32) < 64) by (bit_vector);
    r
}

/// The register in the fourth operand slot.
pub fn rd(word: u32) -> (r: u8)
    ensures
        r == reg_d(word),
        r < 64,
{
    assert((word & 0x3fu32) < 64) by (bit_vector);
    (word & 0x3fu32) as u8
}

/// The 6-bit immediate.
pub fn imm06_of(word: u32) -> (r: u32)
    ensures
        r == imm06(word),
        r < 64,
{
    assert(word & 0x3fu32 < 64) by (bit_vector);
    word & 0x3fu32
}

/// What the instruction set says of an operation code: `None` when it is none,
/// otherwise whether predicates may run the operation.
pub uninterp spec fn opcode_class(op: u8) -> Option<bool>;

/// Whether `fuel_asm::Opcode::try_from` accepts `op` and, if so, what
/// `Opcode::is_predicate_allowed` answers for it. The contract names that answer.
#[verifier::external_body]
pub(crate) fn opcode_info(op: u8) -> (r: Option<bool>)
    ensures
        r == opcode_class(op),
{
    match fuel_asm::Opcode::try_from(op) {
        Ok(o) => Some(o.is_predicate_allowed()),
        Err(_) => None,
    }
}

/// The 12-bit immediate.
pub fn imm12_of(word: u32) -> (r: u32)
    ensures
        r == imm12(word),
        r < 0x1000,
{
    assert(word & 0xfffu32 < 0x1000) by (bit_vector);
    word & 0xfffu32
}

/// The 18-bit immediate.
pub fn imm18_of(word: u32) -> (r: u32)
    ensures
        r == imm18(word),
        r < 0x40000,
{
    assert(word & 0x3ffffu32 < 0x40000) by (bit_vector);
    word & 0x3ffffu32
}

/// The 24-bit immediate.
pub fn imm24_of(word: u32) -> (r: u32)
    ensures
        r == imm24(word),
        r < 0x1000000,
{
    assert(word & 0xffffffu32 < 0x1000000) by (bit_vector);
    word & 0xffffffu32
}

/// The big-endian word of four instruction bytes.
pub fn word_from_bytes(b: [u8; 4]) -> (r: u32)
    ensures
        r == word_of(b[0], b[1], b[2], b[3]),
{
    ((b[0] as u32) << 24u32) | ((b[1] as u32) << 16u32) | ((b[2] as u32) << 8u32) | (b[3] as u32)
}

} // verus!
