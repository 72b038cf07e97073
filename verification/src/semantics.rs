use crate::bytes::{law_word_be_roundtrip, word_from_be};
use crate::consts::{MEM_SIZE, REG_CGAS, REG_ERR, REG_FLAG, REG_GGAS, REG_HP, REG_IS, REG_OF, REG_PC, REG_SP, REG_SSP, VM_MAX_RAM};
use crate::error::{PanicOrBug, PanicReason};
use crate::executors::{alu_cost, executed, jump_args, meq_outcome, stack_registers_outcome, sub128};
use crate::flow::{JumpArgs, JumpMode};
use crate::gas::{sat_add, sat_mul, GasCosts};
use crate::interpreter::{charged, law_alu_keeps_the_full_result, Interpreter};
use crate::jit::{decoded, jal_term, BitOp, BlockStep, Cmp, DecodedOp, OpKind, Rhs, MCPI_MAX_NATIVE};
use crate::memory_ops::{segment_base, ProgramRegistersSegment};
use crate::opcode::{
    imm06, imm12, imm18, imm24, opcode_of, reg_a, reg_b, reg_c, reg_d, ADD, ADDI, ALOC, AND, ANDI, CFE, CFEI, CFS,
    CFSI, DIV, DIVI, EQ, FLAG, GT, JAL, JI, JMP, JMPB, JMPF, JNE, JNEB, JNEF, JNEI, JNZB, JNZF, JNZI, LB, LHW, LQW,
    LT, LW, MCL, MCLI, MCP, MCPI, MEQ, MOD, MODI, MOVE, MOVI, MUL, MULI, NOOP, NOT, OR, ORI, POPH, POPL, PSHH,
    PSHL, SB, SHW, SLL, SLLI, SQW, SRL, SRLI, SUB, SUBI, SW, XOR, XORI,
};
use vstd::prelude::*;

verus! {

/// The registers of `vm` once `gas` is charged: what an instruction that charges
/// first reads its operands from.
pub open spec fn after_gas<T>(vm: Interpreter<T>, gas: u64) -> Seq<u64> {
    charged(vm.spec_registers(), gas as int).0
}

/// Whether `vm` can pay `gas` and move its program counter past one more
/// instruction.
pub open spec fn can_step<T>(vm: Interpreter<T>, gas: int) -> bool {
    &&& charged(vm.spec_registers(), gas).1 is Ok
    &&& vm.spec_registers()[REG_PC as int] + 4 <= u64::MAX
}

/// An instruction that succeeded changed only its destination `a`, the overflow and
/// error registers, the gas registers and the program counter, which moved to the
/// next instruction, and left the memory as it was.
pub open spec fn alu_frame<T>(vm: Interpreter<T>, x: Seq<u64>, a: int, after: Seq<u64>, m2: crate::memory::MemoryModel) -> bool {
    &&& after.len() == 64
    &&& after[REG_PC as int] == x[REG_PC as int] + 4
    &&& forall|i: int| 0 <= i < 64 && i != a && i != REG_OF && i != REG_ERR && i != REG_PC
        ==> #[trigger] after[i] == x[i]
    &&& m2 == vm.spec_memory()@
}

/// EQ, LT and GT write one when the first operand is equal to, below or above the
/// second, compared as unsigned words, and zero otherwise; they clear the overflow
/// and error registers and change nothing else. They succeed exactly when the gas is
/// paid, the destination is writable and the program counter can advance.
pub proof fn law_comparisons<T>(vm: Interpreter<T>, word: u32, g: GasCosts)
    requires
        g.well_formed(),
        opcode_of(word) == EQ || opcode_of(word) == LT || opcode_of(word) == GT,
    ensures
        executed(vm, word, g) is Some,
        match executed(vm, word, g) {
            None => true,
            Some((after, m2, res)) => (res is Ok <==> can_step(vm, alu_cost(opcode_of(word), g)->0 as int)
                && reg_a(word) >= 16) && (res is Ok ==> {
            let op = opcode_of(word);
            let x = after_gas(vm, if op == EQ { g.eq_op } else if op == LT { g.lt } else { g.gt });
            let (vb, vc) = (x[reg_b(word) as int], x[reg_c(word) as int]);
            let v = after[reg_a(word) as int];
            &&& op == EQ ==> (v == 1 <==> vb == vc)
            &&& op == LT ==> (v == 1 <==> vb < vc)
            &&& op == GT ==> (v == 1 <==> vb > vc)
            &&& v <= 1
            &&& after[REG_OF as int] == 0
            &&& after[REG_ERR as int] == 0
            &&& alu_frame(vm, x, reg_a(word) as int, after, m2)
            }),
        },
{
    vm.lemma_register_count();
    assert(((word >> 18u32) & 0x3fu32) < 64) by (bit_vector);
    assert(((word >> 12u32) & 0x3fu32) < 64) by (bit_vector);
    assert(((word >> 6u32) & 0x3fu32) < 64) by (bit_vector);
}

/// The width of a word, as a number: results at or above it overflow.
pub open spec fn word_modulus() -> int {
    0x1_0000_0000_0000_0000
}

/// ADD, SUB and MUL (and their immediate forms) keep their full result across the
/// destination and the overflow register: a sum or product equals the destination
/// plus the overflow register times the word modulus, and a difference below zero
/// wraps, with the overflow register all ones. DIV and MOD (and their immediate
/// forms) give the quotient and remainder, or, by zero with unsafe math on, zero and
/// an error flag. A result wider than a word without the wrapping flag, and a
/// division by zero without unsafe math, fail; otherwise they succeed exactly when
/// the gas is paid, the destination is writable and the program counter can advance.
pub proof fn law_arithmetic<T>(vm: Interpreter<T>, word: u32, g: GasCosts)
    requires
        g.well_formed(),
        alu_cost(opcode_of(word), g) is Some,
        opcode_of(word) != EQ && opcode_of(word) != LT && opcode_of(word) != GT,
    ensures
        executed(vm, word, g) is Some,
        match executed(vm, word, g) {
            None => true,
            Some((after, m2, res)) => {
                let op = opcode_of(word);
                let x = after_gas(vm, alu_cost(op, g)->0);
                let vb = x[reg_b(word) as int];
                let vc = if op == ADDI || op == SUBI || op == MULI || op == DIVI || op == MODI {
                    imm12(word) as u64
                } else {
                    x[reg_c(word) as int]
                };
                let v = after[reg_a(word) as int];
                let of = after[REG_OF as int];
                let err = after[REG_ERR as int];
                let k = word_modulus();
                let can_run = charged(vm.spec_registers(), alu_cost(op, g)->0 as int).1 is Ok && reg_a(word) >= 16;
                let flag = x[REG_FLAG as int];
                &&& (op == ADD || op == ADDI) ==> (res is Ok <==> can_step(vm, alu_cost(op, g)->0 as int)
                    && reg_a(word) >= 16 && (vb + vc < k || flag & 2 != 0))
                &&& (op == MUL || op == MULI) ==> (res is Ok <==> can_step(vm, alu_cost(op, g)->0 as int)
                    && reg_a(word) >= 16 && (vb * vc < k || flag & 2 != 0))
                &&& (op == SUB || op == SUBI) ==> (res is Ok <==> can_step(vm, alu_cost(op, g)->0 as int)
                    && reg_a(word) >= 16 && (vb >= vc || flag & 2 != 0))
                &&& (op == DIV || op == DIVI || op == MOD || op == MODI) ==> (res is Ok <==> can_step(vm,
                    alu_cost(op, g)->0 as int) && reg_a(word) >= 16 && (vc != 0 || flag & 1 != 0))
                &&& res is Ok ==> alu_frame(vm, x, reg_a(word) as int, after, m2)
                &&& (op == ADD || op == ADDI) && res is Ok ==> v + of * k == vb + vc && err == 0
                &&& (op == MUL || op == MULI) && res is Ok ==> v + of * k == vb * vc && err == 0
                &&& (op == SUB || op == SUBI) && res is Ok ==> err == 0 && if vb >= vc {
                    v == vb - vc && of == 0
                } else {
                    v == k + vb - vc && of == k - 1
                }
                &&& (op == DIV || op == DIVI) && res is Ok ==> of == 0 && if vc != 0 {
                    v == vb / vc && err == 0
                } else {
                    v == 0 && err == 1
                }
                &&& (op == MOD || op == MODI) && res is Ok ==> of == 0 && if vc != 0 {
                    v == vb % vc && err == 0
                } else {
                    v == 0 && err == 1
                }
                &&& can_run && (op == ADD || op == ADDI) && vb + vc >= k && x[REG_FLAG as int] & 2 == 0
                    ==> res == Err::<crate::state::ExecuteState, PanicOrBug>(PanicOrBug::Panic(PanicReason::ArithmeticOverflow))
                &&& can_run && (op == MUL || op == MULI) && vb * vc >= k && x[REG_FLAG as int] & 2 == 0
                    ==> res == Err::<crate::state::ExecuteState, PanicOrBug>(PanicOrBug::Panic(PanicReason::ArithmeticOverflow))
                &&& can_run && (op == SUB || op == SUBI) && vb < vc && x[REG_FLAG as int] & 2 == 0
                    ==> res == Err::<crate::state::ExecuteState, PanicOrBug>(PanicOrBug::Panic(PanicReason::ArithmeticOverflow))
                &&& can_run && (op == DIV || op == DIVI || op == MOD || op == MODI) && vc == 0
                    && x[REG_FLAG as int] & 1 == 0
                    ==> res == Err::<crate::state::ExecuteState, PanicOrBug>(PanicOrBug::Panic(PanicReason::ArithmeticError))
            },
        },
{
    vm.lemma_register_count();
    assert(((word >> 18u32) & 0x3fu32) < 64) by (bit_vector);
    assert(((word >> 12u32) & 0x3fu32) < 64) by (bit_vector);
    assert(((word >> 6u32) & 0x3fu32) < 64) by (bit_vector);
    let op = opcode_of(word);
    let x = after_gas(vm, alu_cost(op, g)->0);
    let a = reg_a(word) as int;
    let vb = x[reg_b(word) as int];
    let vc = if op == ADDI || op == SUBI || op == MULI || op == DIVI || op == MODI {
        imm12(word) as u64
    } else {
        x[reg_c(word) as int]
    };
    assert(x.len() == 64);
    if a >= 16 {
        if op == ADD || op == ADDI {
            if (vb + vc) as u128 <= u64::MAX || x[REG_FLAG as int] & 2 != 0 {
                law_alu_keeps_the_full_result(x, a, (vb + vc) as u128);
            }
        } else if op == MUL || op == MULI {
            assert(vb * vc <= 0xFFFF_FFFF_FFFF_FFFFint * 0xFFFF_FFFF_FFFF_FFFFint) by (nonlinear_arith)
                requires
                    vb <= 0xFFFF_FFFF_FFFF_FFFFint,
                    vc <= 0xFFFF_FFFF_FFFF_FFFFint,
            ;
            if (vb * vc) as u128 <= u64::MAX || x[REG_FLAG as int] & 2 != 0 {
                law_alu_keeps_the_full_result(x, a, (vb * vc) as u128);
            }
        } else if op == SUB || op == SUBI {
            if sub128(vb, vc) <= u64::MAX || x[REG_FLAG as int] & 2 != 0 {
                law_alu_keeps_the_full_result(x, a, sub128(vb, vc));
            }
        }
    }
}

/// AND, OR and XOR (and their immediate forms) combine the operands bit by bit, NOT
/// inverts every bit, MOVE copies a register and MOVI the immediate, and the shifts
/// move the bits by the given count, giving zero for a count of the word size or
/// more; each clears the overflow and error registers and changes nothing else, and
/// succeeds exactly when the gas is paid, the destination is writable and the program
/// counter can advance.
pub proof fn law_bitwise<T>(vm: Interpreter<T>, word: u32, g: GasCosts)
    requires
        g.well_formed(),
        opcode_of(word) == AND || opcode_of(word) == ANDI || opcode_of(word) == OR || opcode_of(word) == ORI
            || opcode_of(word) == XOR || opcode_of(word) == XORI || opcode_of(word) == NOT
            || opcode_of(word) == MOVE || opcode_of(word) == MOVI || opcode_of(word) == SLL
            || opcode_of(word) == SLLI || opcode_of(word) == SRL || opcode_of(word) == SRLI,
    ensures
        executed(vm, word, g) is Some,
        match executed(vm, word, g) {
            None => true,
            Some((after, m2, res)) => (res is Ok <==> can_step(vm, alu_cost(opcode_of(word), g)->0 as int)
                && reg_a(word) >= 16) && (res is Ok ==> {
                let op = opcode_of(word);
                let x = after_gas(vm, alu_cost(op, g)->0);
                let vb = x[reg_b(word) as int];
                let vc = x[reg_c(word) as int];
                let i = imm12(word) as u64;
                let v = after[reg_a(word) as int];
                &&& op == AND ==> v == vb & vc
                &&& op == ANDI ==> v == vb & i
                &&& op == OR ==> v == vb | vc
                &&& op == ORI ==> v == vb | i
                &&& op == XOR ==> v == vb ^ vc
                &&& op == XORI ==> v == vb ^ i
                &&& op == NOT ==> v == !vb
                &&& op == MOVE ==> v == vb
                &&& op == MOVI ==> v == imm18(word) as u64
                &&& op == SLL ==> v == if vc < 64 { vb << vc } else { 0 }
                &&& op == SLLI ==> v == if i < 64 { vb << i } else { 0 }
                &&& op == SRL ==> v == if vc < 64 { vb >> vc } else { 0 }
                &&& op == SRLI ==> v == if i < 64 { vb >> i } else { 0 }
                &&& after[REG_OF as int] == 0
                &&& after[REG_ERR as int] == 0
                &&& alu_frame(vm, x, reg_a(word) as int, after, m2)
            }),
        },
{
    vm.lemma_register_count();
    assert(((word >> 18u32) & 0x3fu32) < 64) by (bit_vector);
    assert(((word >> 12u32) & 0x3fu32) < 64) by (bit_vector);
    assert(((word >> 6u32) & 0x3fu32) < 64) by (bit_vector);
}

/// The target of a jump in plain arithmetic, without saturation.
pub open spec fn plain_target(args: JumpArgs, is: u64, pc: u64) -> int {
    match args.mode {
        JumpMode::Assign => args.dynamic + 4 * args.fixed,
        JumpMode::RelativeIS => is + 4 * (args.dynamic + args.fixed),
        JumpMode::RelativeForwards => pc + 4 * (args.dynamic + args.fixed + 1),
        JumpMode::RelativeBackwards => pc - 4 * (args.dynamic + args.fixed + 1),
    }
}

/// A target inside the memory is reached without saturation, and a target outside
/// it, below zero included, is refused or lands outside the memory.
pub proof fn lemma_plain_target(args: JumpArgs, is: u64, pc: u64)
    requires
        pc < u64::MAX,
    ensures
        match args.target(is, pc) {
            Ok(t) => (t < VM_MAX_RAM ==> t == plain_target(args, is, pc))
                && (0 <= plain_target(args, is, pc) && plain_target(args, is, pc) < VM_MAX_RAM ==> t == plain_target(args, is, pc)),
            Err(_) => plain_target(args, is, pc) < 0,
        },
        (plain_target(args, is, pc) < 0 || plain_target(args, is, pc) >= VM_MAX_RAM) ==> match args.target(is, pc) {
            Ok(t) => t >= VM_MAX_RAM,
            Err(_) => true,
        },
{
    let d = args.dynamic as int;
    let f = args.fixed as int;
    let s1 = sat_add(d, f);
    let s2 = sat_add(s1, 1);
    assert(s1 <= d + f);
    assert(s2 <= d + f + 1);
    assert(d + f > u64::MAX ==> s1 == u64::MAX);
    match args.mode {
        JumpMode::Assign => {
            let m = sat_mul(f, 4);
            assert(m <= 4 * f);
            assert(4 * f > u64::MAX ==> m == u64::MAX);
        },
        JumpMode::RelativeIS => {
            let m = sat_mul(s1, 4);
            assert(m <= 4 * s1);
            assert(4 * s1 > u64::MAX ==> m == u64::MAX);
        },
        JumpMode::RelativeForwards => {
            let m = sat_mul(s2, 4);
            assert(m <= 4 * s2);
            assert(4 * s2 > u64::MAX ==> m == u64::MAX);
            assert(s1 == u64::MAX ==> s2 == u64::MAX);
        },
        JumpMode::RelativeBackwards => {
            let m = sat_mul(s2, 4);
            assert(m <= 4 * s2);
            assert(4 * s2 > u64::MAX ==> m == u64::MAX);
            assert(s1 == u64::MAX ==> s2 == u64::MAX);
        },
    }
}

/// What a jump instruction charges.
pub open spec fn jump_cost(op: u8, g: GasCosts) -> u64 {
    if op == JI { g.ji } else if op == JNEI { g.jnei } else if op == JNZI { g.jnzi } else if op == JMP { g.jmp }
    else if op == JNE { g.jne } else if op == JMPF { g.jmpf } else if op == JMPB { g.jmpb }
    else if op == JNZF { g.jnzf } else if op == JNZB { g.jnzb } else if op == JNEF { g.jnef } else { g.jneb }
}

/// Whether the jump `word` is taken with the registers `x`: JNEI, JNE, JNEF and JNEB
/// when their first two registers differ, JNZI, JNZF and JNZB when their first
/// register is not zero, the others always.
pub open spec fn jump_taken(word: u32, x: Seq<u64>) -> bool {
    let op = opcode_of(word);
    let ra = x[reg_a(word) as int];
    let rb = x[reg_b(word) as int];
    if op == JNEI || op == JNE || op == JNEF || op == JNEB {
        ra != rb
    } else if op == JNZI || op == JNZF || op == JNZB {
        ra != 0
    } else {
        true
    }
}

/// Where the jump `word` goes with the registers `x`, in instructions of four bytes:
/// JI, JNEI, JNZI, JMP and JNE from the start of the code, JMPF, JNZF and JNEF forwards
/// from the program counter past the next instruction, JMPB, JNZB and JNEB backwards.
pub open spec fn jump_target(word: u32, x: Seq<u64>) -> int {
    let op = opcode_of(word);
    let pc = x[REG_PC as int];
    let is = x[REG_IS as int];
    let ra = x[reg_a(word) as int];
    let rb = x[reg_b(word) as int];
    let rc = x[reg_c(word) as int];
    if op == JI { is + 4 * imm24(word) }
    else if op == JNEI { is + 4 * imm12(word) }
    else if op == JNZI { is + 4 * imm18(word) }
    else if op == JMP { is + 4 * ra }
    else if op == JNE { is + 4 * rc }
    else if op == JMPF { pc + 4 * (ra + imm18(word) + 1) }
    else if op == JMPB { pc - 4 * (ra + imm18(word) + 1) }
    else if op == JNZF { pc + 4 * (rb + imm12(word) + 1) }
    else if op == JNZB { pc - 4 * (rb + imm12(word) + 1) }
    else if op == JNEF { pc + 4 * (rc + imm06(word) + 1) }
    else { pc - 4 * (rc + imm06(word) + 1) }
}

/// A jump that is taken moves the program counter to its target, one that is not
/// taken to the next instruction, and nothing else changes; a taken jump whose target
/// lies outside the memory fails and leaves the program counter where it was; with the
/// gas paid, every other jump succeeds, and so does one not taken whose program
/// counter can advance. (A
/// program counter at the largest word is left out: there a backward jump whose
/// offset saturates lands on address zero.)
pub proof fn law_jumps<T>(vm: Interpreter<T>, word: u32, g: GasCosts)
    requires
        g.well_formed(),
        opcode_of(word) == JI || opcode_of(word) == JNEI || opcode_of(word) == JNZI || opcode_of(word) == JMP
            || opcode_of(word) == JNE || opcode_of(word) == JMPF || opcode_of(word) == JMPB
            || opcode_of(word) == JNZF || opcode_of(word) == JNZB || opcode_of(word) == JNEF
            || opcode_of(word) == JNEB,
        vm.spec_registers()[REG_PC as int] < u64::MAX,
    ensures
        executed(vm, word, g) is Some,
        match executed(vm, word, g) {
            None => true,
            Some((after, m2, res)) => {
                let x = after_gas(vm, jump_cost(opcode_of(word), g));
                let charged_ok = charged(vm.spec_registers(), jump_cost(opcode_of(word), g) as int).1 is Ok;
                let target = jump_target(word, x);
                &&& res is Ok ==> after[REG_PC as int] == if jump_taken(word, x) { target } else { x[REG_PC as int] + 4 }
                &&& forall|i: int| 0 <= i < 64 && i != REG_PC ==> #[trigger] after[i] == x[i]
                &&& m2 == vm.spec_memory()@
                &&& charged_ok && jump_taken(word, x) && (target < 0 || target >= VM_MAX_RAM)
                    ==> res is Err && after[REG_PC as int] == x[REG_PC as int]
                &&& res is Ok <==> charged_ok && if jump_taken(word, x) {
                    0 <= target < VM_MAX_RAM
                } else {
                    x[REG_PC as int] + 4 <= u64::MAX
                }
            },
        },
{
    vm.lemma_register_count();
    assert(((word >> 18u32) & 0x3fu32) < 64) by (bit_vector);
    assert(((word >> 12u32) & 0x3fu32) < 64) by (bit_vector);
    assert(((word >> 6u32) & 0x3fu32) < 64) by (bit_vector);
    let op = opcode_of(word);
    let x = after_gas(vm, jump_cost(op, g));
    let (a, b, c) = (reg_a(word) as int, reg_b(word) as int, reg_c(word) as int);
    let (is, pc) = (x[REG_IS as int], x[REG_PC as int]);
    let args = if op == JI {
        jump_args(true, JumpMode::RelativeIS, imm24(word) as u64, 0)
    } else if op == JNEI {
        jump_args(x[a] != x[b], JumpMode::RelativeIS, imm12(word) as u64, 0)
    } else if op == JNZI {
        jump_args(x[a] != 0, JumpMode::RelativeIS, imm18(word) as u64, 0)
    } else if op == JMP {
        jump_args(true, JumpMode::RelativeIS, x[a], 0)
    } else if op == JNE {
        jump_args(x[a] != x[b], JumpMode::RelativeIS, x[c], 0)
    } else if op == JMPF {
        jump_args(true, JumpMode::RelativeForwards, x[a], imm18(word) as u64)
    } else if op == JMPB {
        jump_args(true, JumpMode::RelativeBackwards, x[a], imm18(word) as u64)
    } else if op == JNZF {
        jump_args(x[a] != 0, JumpMode::RelativeForwards, x[b], imm12(word) as u64)
    } else if op == JNZB {
        jump_args(x[a] != 0, JumpMode::RelativeBackwards, x[b], imm12(word) as u64)
    } else if op == JNEF {
        jump_args(x[a] != x[b], JumpMode::RelativeForwards, x[c], imm06(word) as u64)
    } else {
        jump_args(x[a] != x[b], JumpMode::RelativeBackwards, x[c], imm06(word) as u64)
    };
    lemma_plain_target(args, is, pc);
    assert(plain_target(args, is, pc) == jump_target(word, x));
    assert(args.condition == jump_taken(word, x));
}

/// Whether a context with the registers `x`, whose caller's heap pointer is
/// `prev_hp`, may write `start..end`: a range that starts within its stack (from the
/// stack start up to the stack pointer) and ends there too, within the memory; a
/// range within the heap it allocated (from the heap pointer up to `prev_hp`, when it
/// allocated any); or an empty range at the stack start or at the heap pointer.
pub open spec fn may_write(x: Seq<u64>, prev_hp: u64, start: int, end: int) -> bool {
    let (ssp, sp, hp) = (x[REG_SSP as int] as int, x[REG_SP as int] as int, x[REG_HP as int] as int);
    ||| start >= end && (start == ssp || start == hp)
    ||| ssp <= start < sp && ssp <= end <= sp && end <= VM_MAX_RAM
    ||| start >= hp && hp != prev_hp && end <= prev_hp
}

/// The gas that a clear or copy of `len` bytes, or a load or store, charges.
pub open spec fn mem_cost<T>(vm: Interpreter<T>, word: u32, g: GasCosts) -> int {
    let op = opcode_of(word);
    let regs = vm.spec_registers();
    if op == MCL { g.mcl.spec_resolve(regs[reg_b(word) as int]) }
    else if op == MCLI { g.mcli.spec_resolve(imm18(word) as u64) }
    else if op == MCP { g.mcp.spec_resolve(regs[reg_c(word) as int]) }
    else if op == MCPI { g.mcpi.spec_resolve(imm12(word) as u64) }
    else if op == SB { g.sb as int }
    else { g.sw as int }
}

/// MCL and MCLI clear the bytes from register `a` on (as many as register `b` holds,
/// or the immediate), SB stores the low byte of register `b` and SW the big-endian
/// word of register `b` at register `a` plus the immediate (in words for SW); each
/// changes those bytes only and otherwise only moves the program counter to the next
/// instruction; each succeeds exactly when the gas is paid, the bytes lie within the
/// memory where it can be read, the context may write them and the program counter
/// can advance.
pub proof fn law_clears_and_stores<T>(vm: Interpreter<T>, word: u32, g: GasCosts)
    requires
        g.well_formed(),
        vm.inv(),
        opcode_of(word) == MCL || opcode_of(word) == MCLI || opcode_of(word) == SB || opcode_of(word) == SW,
    ensures
        executed(vm, word, g) is Some,
        match executed(vm, word, g) {
            None => true,
            Some((after, m2, res)) => {
                let op = opcode_of(word);
                let m = vm.spec_memory()@;
                let x = charged(vm.spec_registers(), mem_cost(vm, word, g)).0;
                let addr: int = if op == SB { x[reg_a(word) as int] + imm12(word) }
                    else if op == SW { x[reg_a(word) as int] + 8 * imm12(word) }
                    else { x[reg_a(word) as int] as int };
                let len: int = if op == MCL { vm.spec_registers()[reg_b(word) as int] as int }
                    else if op == MCLI { imm18(word) as int } else if op == SB { 1 } else { 8 };
                let vb = x[reg_b(word) as int];
                &&& res is Ok <==> charged(vm.spec_registers(), mem_cost(vm, word, g)).1 is Ok && addr + len <= MEM_SIZE
                    && m.accessible(addr, addr + len) && may_write(x, vm.spec_prev_hp(), addr, addr + len)
                    && x[REG_PC as int] + 4 <= u64::MAX
                &&& res is Ok ==> may_write(x, vm.spec_prev_hp(), addr, addr + len)
                &&& res is Ok ==> addr + len <= MEM_SIZE
                &&& res is Ok ==> m2.flat().len() == MEM_SIZE
                &&& res is Ok ==> m2.stack.len() == m.stack.len() && m2.hp == m.hp
                &&& res is Ok ==> forall|i: int| 0 <= i < MEM_SIZE && !(addr <= i < addr + len)
                    ==> #[trigger] m2.flat()[i] == m.flat()[i]
                &&& res is Ok ==> (op == MCL || op == MCLI) ==> forall|i: int| addr <= i < addr + len ==> #[trigger] m2.flat()[i] == 0
                &&& res is Ok ==> op == SB ==> m2.flat()[addr] == vb % 256
                &&& res is Ok ==> op == SW ==> word_from_be(m2.flat().subrange(addr, addr + 8)) == vb
                &&& res is Ok ==> after == x.update(REG_PC as int, (x[REG_PC as int] + 4) as u64)
            },
        },
{
    vm.lemma_register_count();
    vm.spec_memory().lemma_valid();
    assert(((word >> 18u32) & 0x3fu32) < 64) by (bit_vector);
    assert(((word >> 12u32) & 0x3fu32) < 64) by (bit_vector);
    assert(((word >> 6u32) & 0x3fu32) < 64) by (bit_vector);
    let op = opcode_of(word);
    let m = vm.spec_memory()@;
    let x = charged(vm.spec_registers(), mem_cost(vm, word, g)).0;
    let vb = x[reg_b(word) as int];
    let addr: int = if op == SB { crate::memory_ops::sat_addr(x[reg_a(word) as int] as int, imm12(word) as int) }
        else if op == SW { crate::memory_ops::sat_addr(x[reg_a(word) as int] as int, 8 * imm12(word)) }
        else { x[reg_a(word) as int] as int };
    let data: Seq<u8> = if op == MCL { crate::memory::zeros(vm.spec_registers()[reg_b(word) as int] as int) }
        else if op == MCLI { crate::memory::zeros(imm18(word) as int) }
        else if op == SB { seq![(vb % 256) as u8] } else { crate::bytes::word_be_bytes(vb) };
    law_word_be_roundtrip(vb);
    if m.verify(addr, data.len() as int) is Ok {
        m.lemma_write_flat(addr, data);
        let m2 = m.write(addr, data);
        if op == SW {
            assert(m2.flat().subrange(addr, addr + 8) =~= data);
        }
    }
    m.lemma_flat_len();
}

/// MCP and MCPI copy the bytes from register `b` on to register `a` on (as many as
/// register `c` holds, or the immediate), changing nothing else in memory; they
/// succeed exactly when the gas is paid, both ranges lie within the memory where it
/// can be read and do not overlap, the context may write the destination and the
/// program counter can advance.
pub proof fn law_copies<T>(vm: Interpreter<T>, word: u32, g: GasCosts)
    requires
        g.well_formed(),
        vm.inv(),
        opcode_of(word) == MCP || opcode_of(word) == MCPI,
    ensures
        executed(vm, word, g) is Some,
        match executed(vm, word, g) {
            None => true,
            Some((after, m2, res)) => {
                let op = opcode_of(word);
                let m = vm.spec_memory()@;
                let cost = if op == MCP { g.mcp.spec_resolve(vm.spec_registers()[reg_c(word) as int]) } else {
                    g.mcpi.spec_resolve(imm12(word) as u64)
                };
                let x = charged(vm.spec_registers(), cost).0;
                let dst = x[reg_a(word) as int] as int;
                let src = x[reg_b(word) as int] as int;
                let len: int = if op == MCP { vm.spec_registers()[reg_c(word) as int] as int } else { imm12(word) as int };
                &&& res is Ok <==> charged(vm.spec_registers(), cost).1 is Ok && dst + len <= MEM_SIZE && src + len <= MEM_SIZE
                    && m.accessible(dst, dst + len) && m.accessible(src, src + len)
                    && (len == 0 || dst + len <= src || src + len <= dst)
                    && may_write(x, vm.spec_prev_hp(), dst, dst + len) && x[REG_PC as int] + 4 <= u64::MAX
                &&& res is Ok ==> may_write(x, vm.spec_prev_hp(), dst, dst + len)
                &&& res is Ok ==> dst + len <= MEM_SIZE && src + len <= MEM_SIZE
                &&& res is Ok ==> len == 0 || dst + len <= src || src + len <= dst
                &&& res is Ok ==> m2.stack.len() == m.stack.len() && m2.hp == m.hp
                &&& res is Ok ==> forall|i: int| 0 <= i < MEM_SIZE ==> #[trigger] m2.flat()[i]
                    == if dst <= i < dst + len { m.flat()[src + (i - dst)] } else { m.flat()[i] }
                &&& res is Ok ==> after == x.update(REG_PC as int, (x[REG_PC as int] + 4) as u64)
            },
        },
{
    vm.lemma_register_count();
    vm.spec_memory().lemma_valid();
    assert(((word >> 18u32) & 0x3fu32) < 64) by (bit_vector);
    assert(((word >> 12u32) & 0x3fu32) < 64) by (bit_vector);
    assert(((word >> 6u32) & 0x3fu32) < 64) by (bit_vector);
    let op = opcode_of(word);
    let m = vm.spec_memory()@;
    let cost = if op == MCP { g.mcp.spec_resolve(vm.spec_registers()[reg_c(word) as int]) } else {
        g.mcpi.spec_resolve(imm12(word) as u64)
    };
    let x = charged(vm.spec_registers(), cost).0;
    let dst = x[reg_a(word) as int] as int;
    let src = x[reg_b(word) as int] as int;
    let len: int = if op == MCP { vm.spec_registers()[reg_c(word) as int] as int } else { imm12(word) as int };
    if m.verify(dst, len) is Ok && m.verify(src, len) is Ok {
        m.lemma_read_flat(src, src + len);
        m.lemma_read_len(src, len);
        m.lemma_write_flat(dst, m.read(src, src + len));
    }
}


/// LB loads the byte at register `b` plus the immediate, and LW the big-endian word
/// at register `b` plus eight times the immediate, into register `a`; neither
/// changes the memory or any other register but the program counter, which moves to
/// the next instruction. Each succeeds exactly when the gas is paid, the destination is
/// writable, the bytes lie within the memory where it can be read and the program
/// counter can advance.
pub proof fn law_loads<T>(vm: Interpreter<T>, word: u32, g: GasCosts)
    requires
        g.well_formed(),
        vm.inv(),
        opcode_of(word) == LB || opcode_of(word) == LW,
    ensures
        executed(vm, word, g) is Some,
        match executed(vm, word, g) {
            None => true,
            Some((after, m2, res)) => {
                let op = opcode_of(word);
                let m = vm.spec_memory()@;
                let cost = if op == LB { g.lb as int } else { g.lw as int };
                let x = charged(vm.spec_registers(), cost).0;
                let a = reg_a(word) as int;
                let vb = x[reg_b(word) as int] as int;
                let flat = m.flat();
                &&& res is Ok <==> charged(vm.spec_registers(), cost).1 is Ok && a >= 16 && x[REG_PC as int] + 4 <= u64::MAX
                    && (op == LB ==> vb + imm12(word) < MEM_SIZE && m.accessible(vb + imm12(word), vb + imm12(word) + 1))
                    && (op == LW ==> vb + 8 * imm12(word) + 8 <= MEM_SIZE
                        && m.accessible(vb + 8 * imm12(word), vb + 8 * imm12(word) + 8))
                &&& res is Ok ==> a >= 16
                &&& res is Ok ==> m2 == m
                &&& res is Ok ==> op == LB ==> vb + imm12(word) < MEM_SIZE && after[a] == flat[vb + imm12(word)]
                &&& res is Ok ==> op == LW ==> vb + 8 * imm12(word) + 8 <= MEM_SIZE
                    && after[a] == word_from_be(flat.subrange(vb + 8 * imm12(word), vb + 8 * imm12(word) + 8))
                &&& res is Ok ==> forall|i: int| 0 <= i < 64 && i != a && i != REG_PC ==> #[trigger] after[i] == x[i]
                &&& res is Ok ==> after[REG_PC as int] == x[REG_PC as int] + 4
            },
        },
{
    vm.lemma_register_count();
    vm.spec_memory().lemma_valid();
    assert(((word >> 18u32) & 0x3fu32) < 64) by (bit_vector);
    assert(((word >> 12u32) & 0x3fu32) < 64) by (bit_vector);
    assert(((word >> 6u32) & 0x3fu32) < 64) by (bit_vector);
    assert((word & 0x3fu32) < 64) by (bit_vector);
    let op = opcode_of(word);
    let m = vm.spec_memory()@;
    let cost = if op == LB { g.lb as int } else { g.lw as int };
    let x = charged(vm.spec_registers(), cost).0;
    let vb = x[reg_b(word) as int] as int;
    let flat = m.flat();
    if op == LB {
        let addr = crate::memory_ops::sat_addr(vb, imm12(word) as int);
        if m.verify(addr, 1) is Ok {
            m.lemma_read_flat(addr, addr + 1);
        }
    } else if op == LW {
        let addr = vb + 8 * imm12(word);
        if addr <= u64::MAX && m.verify(addr, 8) is Ok {
            m.lemma_read_flat(addr, addr + 8);
        }
    }
}

/// MEQ sets register `a` to one when the bytes from register `b` on and from
/// register `c` on (as many as register `d` holds) are equal, else to zero; it
/// changes neither the memory nor any other register but the program counter, which
/// moves to the next instruction. It succeeds exactly when the gas is paid, the
/// destination is writable, both ranges lie within the memory where it can be read
/// and the program counter can advance.
#[verifier::spinoff_prover]
pub proof fn law_memory_compare<T>(vm: Interpreter<T>, word: u32, g: GasCosts)
    requires
        g.well_formed(),
        vm.inv(),
        opcode_of(word) == MEQ,
    ensures
        executed(vm, word, g) is Some,
        match executed(vm, word, g) {
            None => true,
            Some((after, m2, res)) => {
                let m = vm.spec_memory()@;
                let len = vm.spec_registers()[reg_d(word) as int] as int;
                let x = charged(vm.spec_registers(), g.meq.spec_resolve(len as u64)).0;
                let a = reg_a(word) as int;
                let vb = x[reg_b(word) as int] as int;
                let vc = x[reg_c(word) as int] as int;
                &&& res is Ok <==> charged(vm.spec_registers(), g.meq.spec_resolve(len as u64)).1 is Ok && a >= 16
                    && vb + len <= MEM_SIZE && vc + len <= MEM_SIZE && m.accessible(vb, vb + len)
                    && m.accessible(vc, vc + len) && x[REG_PC as int] + 4 <= u64::MAX
                &&& res is Ok ==> a >= 16
                &&& res is Ok ==> m2 == m
                &&& res is Ok ==> vb + len <= MEM_SIZE && vc + len <= MEM_SIZE
                &&& res is Ok ==> (after[a] == 1 <==> forall|j: int| 0 <= j < len ==> #[trigger] m.flat()[vb + j] == m.flat()[vc + j])
                &&& res is Ok ==> after[a] <= 1
                &&& res is Ok ==> forall|i: int| 0 <= i < 64 && i != a && i != REG_PC ==> #[trigger] after[i] == x[i]
                &&& res is Ok ==> after[REG_PC as int] == x[REG_PC as int] + 4
            },
        },
{
    vm.lemma_register_count();
    vm.spec_memory().lemma_valid();
    assert(((word >> 18u32) & 0x3fu32) < 64) by (bit_vector);
    assert(((word >> 12u32) & 0x3fu32) < 64) by (bit_vector);
    assert(((word >> 6u32) & 0x3fu32) < 64) by (bit_vector);
    assert((word & 0x3fu32) < 64) by (bit_vector);
    let (a, b, c, d) = (reg_a(word), reg_b(word), reg_c(word), reg_d(word));
    let m = vm.spec_memory()@;
    let len = vm.spec_registers()[d as int];
    let x = charged(vm.spec_registers(), g.meq.spec_resolve(len)).0;
    let vb = x[b as int] as int;
    let vc = x[c as int] as int;
    assert(executed(vm, word, g) == Some(meq_outcome(vm, a, b, c, d, g)));
    if m.verify(vb, len as int) is Ok && m.verify(vc, len as int) is Ok {
        m.lemma_ranges_equal(vb, vc, len as int);
    }
}

/// The value of the second operand of a native operation, with the registers `x`.
pub open spec fn rhs_value(rhs: Rhs, x: Seq<u64>) -> u64 {
    match rhs {
        Rhs::Reg(r) => x[r as int],
        Rhs::Imm(v) => v,
    }
}

/// Whether the native comparison `cc` holds of `vb` and `vc`: equality, or the
/// unsigned order.
pub open spec fn compares(cc: Cmp, vb: u64, vc: u64) -> bool {
    match cc {
        Cmp::Eq => vb == vc,
        Cmp::Lt => vb < vc,
        Cmp::Gt => vb > vc,
    }
}

/// The register that a native operation on registers writes.
pub open spec fn native_dest(kind: OpKind) -> Option<u8> {
    match kind {
        OpKind::AddSub { dest, .. } => Some(dest),
        OpKind::Movi { dest, .. } => Some(dest),
        OpKind::Move { dest, .. } => Some(dest),
        OpKind::Not { dest, .. } => Some(dest),
        OpKind::Bit { dest, .. } => Some(dest),
        OpKind::Cmp { dest, .. } => Some(dest),
        OpKind::Shift { dest, .. } => Some(dest),
        _ => None,
    }
}

/// What the code that a block emits for a native operation on registers writes to
/// its destination, with the registers `x`: `None` where it hands the instruction
/// back to the interpreter (a sum above the word, a difference below zero) or
/// where the operation is not one on registers.
pub open spec fn native_value(kind: OpKind, x: Seq<u64>) -> Option<u64> {
    match kind {
        OpKind::AddSub { b, rhs, sub, .. } => {
            let (vb, vc) = (x[b as int], rhs_value(rhs, x));
            if sub {
                if vb >= vc { Some((vb - vc) as u64) } else { None }
            } else {
                if vb + vc <= u64::MAX { Some((vb + vc) as u64) } else { None }
            }
        },
        OpKind::Movi { imm, .. } => Some(imm),
        OpKind::Move { src, .. } => Some(x[src as int]),
        OpKind::Not { src, .. } => Some(!x[src as int]),
        OpKind::Bit { b, rhs, op, .. } => {
            let (vb, vc) = (x[b as int], rhs_value(rhs, x));
            Some(match op {
                BitOp::And => vb & vc,
                BitOp::Or => vb | vc,
                BitOp::Xor => vb ^ vc,
            })
        },
        OpKind::Cmp { b, c, cc, .. } => Some(if compares(cc, x[b as int], x[c as int]) { 1u64 } else { 0u64 }),
        OpKind::Shift { b, rhs, right, .. } => {
            let (vb, s) = (x[b as int], rhs_value(rhs, x));
            Some(if s >= 64 { 0u64 } else if right { vb >> s } else { vb << s })
        },
        _ => None,
    }
}

/// Whether `op` is an instruction on registers alone that a block may run natively.
pub open spec fn native_register_op(op: u8) -> bool {
    op == ADD || op == ADDI || op == SUB || op == SUBI || op == MOVI || op == MOVE || op == NOT
        || op == AND || op == ANDI || op == OR || op == ORI || op == XOR || op == XORI
        || op == EQ || op == LT || op == GT || op == SLL || op == SLLI || op == SRL || op == SRLI
}

/// A block runs an instruction on registers natively exactly when its destination
/// is writable; the native operation then charges what the interpreter charges,
/// writes the same register, and, wherever it does not hand the instruction back,
/// computes the value that the interpreter writes there.
pub proof fn law_native_agrees<T>(vm: Interpreter<T>, word: u32, g: GasCosts, native_mem: bool)
    requires
        g.well_formed(),
        native_register_op(opcode_of(word)),
    ensures
        decoded(word, g, native_mem) is Some <==> reg_a(word) >= 16,
        match decoded(word, g, native_mem) {
            None => true,
            Some(d) => {
                let x = after_gas(vm, d.gas);
                &&& alu_cost(opcode_of(word), g) == Some(d.gas)
                &&& native_dest(d.kind) == Some(reg_a(word))
                &&& match executed(vm, word, g) {
                    None => false,
                    Some((after, m2, res)) => res is Ok && native_value(d.kind, x) is Some
                        ==> after[reg_a(word) as int] == native_value(d.kind, x)->0,
                }
            },
        },
{
    let op = opcode_of(word);
    assert(((word >> 18u32) & 0x3fu32) < 64) by (bit_vector);
    assert(((word >> 12u32) & 0x3fu32) < 64) by (bit_vector);
    assert(((word >> 6u32) & 0x3fu32) < 64) by (bit_vector);
    if op == EQ || op == LT || op == GT {
        law_comparisons(vm, word, g);
    } else if op == ADD || op == ADDI || op == SUB || op == SUBI {
        law_arithmetic(vm, word, g);
        match executed(vm, word, g) {
            None => {},
            Some((after, m2, res)) => {
                let v = after[reg_a(word) as int];
                let of = after[REG_OF as int];
                let k = word_modulus();
                if res is Ok && of > 0 {
                    assert(of * k >= k) by (nonlinear_arith)
                        requires
                            of > 0,
                            k > 0,
                    ;
                }
            },
        }
    } else {
        law_bitwise(vm, word, g);
    }
}

/// JAL puts the address of the next instruction (saturating) in register `a`, or
/// discards it when `a` is the zero register, and then jumps to register `b` (read
/// after that write) plus the immediate in instructions; it fails on another reserved
/// register and on a target outside the memory, and changes nothing else.
pub proof fn law_jump_and_link<T>(vm: Interpreter<T>, word: u32, g: GasCosts)
    requires
        g.well_formed(),
        opcode_of(word) == JAL,
    ensures
        executed(vm, word, g) is Some,
        match executed(vm, word, g) {
            None => false,
            Some((after, m2, res)) => {
                let x = after_gas(vm, g.jmp);
                let a = reg_a(word) as int;
                let ret: u64 = if x[REG_PC as int] + 4 > u64::MAX { u64::MAX } else { (x[REG_PC as int] + 4) as u64 };
                let linked = if a == 0 { x } else { x.update(a, ret) };
                let target = linked[reg_b(word) as int] + 4 * imm12(word);
                &&& res is Ok <==> charged(vm.spec_registers(), g.jmp as int).1 is Ok && (a == 0 || a >= 16)
                    && target < VM_MAX_RAM
                &&& res is Ok ==> after == linked.update(REG_PC as int, target as u64)
                &&& m2 == vm.spec_memory()@
            },
        },
{
    vm.lemma_register_count();
    assert(((word >> 18u32) & 0x3fu32) < 64) by (bit_vector);
    assert(((word >> 12u32) & 0x3fu32) < 64) by (bit_vector);
    let x = after_gas(vm, g.jmp);
    let a = reg_a(word) as int;
    let ret: u64 = if x[REG_PC as int] + 4 > u64::MAX { u64::MAX } else { (x[REG_PC as int] + 4) as u64 };
    let linked = if a == 0 { x } else { x.update(a, ret) };
    let args = jump_args(true, JumpMode::Assign, linked[reg_b(word) as int], imm12(word) as u64);
    lemma_plain_target(args, 0, 0);
}

/// The value that a native load of `n` bytes (one or eight) at `addr` gives from the
/// memory `flat`: the byte, or the big-endian word.
pub open spec fn native_loaded(flat: Seq<u8>, addr: int, n: u8) -> u64 {
    if n == 1 { flat[addr] as u64 } else { word_from_be(flat.subrange(addr, addr + 8)) }
}

/// Whether the memory `after` holds, at `addr`, what a native store of `n` bytes (one
/// or eight) of `v` writes there: its low byte, or its big-endian word.
pub open spec fn native_stored(after: Seq<u8>, addr: int, n: u8, v: u64) -> bool {
    if n == 1 { after[addr] == v % 256 } else { word_from_be(after.subrange(addr, addr + 8)) == v }
}

/// A block runs LB and LW natively when their destination is writable, SB and SW when
/// memory writers are switched on, and MCPI when they are and it copies from one to
/// [`MCPI_MAX_NATIVE`] bytes. The native operation charges what the interpreter
/// charges and touches the memory where the interpreter does: a load gives the value
/// at its base register plus its offset, a store writes its value register there,
/// and a copy moves the bytes between the addresses in its registers.
pub proof fn law_native_memory_agrees<T>(vm: Interpreter<T>, word: u32, g: GasCosts, native_mem: bool)
    requires
        g.well_formed(),
        vm.inv(),
        opcode_of(word) == LB || opcode_of(word) == LW || opcode_of(word) == SB || opcode_of(word) == SW
            || opcode_of(word) == MCPI,
    ensures
        ({
            let op = opcode_of(word);
            decoded(word, g, native_mem) is Some <==> if op == LB || op == LW {
                reg_a(word) >= 16
            } else if op == MCPI {
                native_mem && 0 < imm12(word) <= MCPI_MAX_NATIVE
            } else {
                native_mem
            }
        }),
        match decoded(word, g, native_mem) {
            None => true,
            Some(d) => {
                let m = vm.spec_memory()@;
                let x = after_gas(vm, d.gas);
                &&& d.gas == mem_or_load_cost(word, g)
                &&& match executed(vm, word, g) {
                    None => false,
                    Some((after, m2, res)) => res is Ok ==> match d.kind {
                        OpKind::Load { dest, base, offset, nbytes } => dest == reg_a(word)
                            && after[dest as int] == native_loaded(m.flat(), x[base as int] + offset, nbytes),
                        OpKind::Store { base, value, offset, nbytes } =>
                            native_stored(m2.flat(), x[base as int] + offset, nbytes, x[value as int]),
                        OpKind::Mcpi { dst, src, len } => forall|i: int| 0 <= i < len
                            ==> #[trigger] m2.flat()[x[dst as int] + i] == m.flat()[x[src as int] + i],
                        _ => false,
                    },
                }
            },
        },
{
    let op = opcode_of(word);
    vm.lemma_register_count();
    if op == LB || op == LW {
        law_loads(vm, word, g);
    } else if op == SB || op == SW {
        law_clears_and_stores(vm, word, g);
    } else {
        law_copies(vm, word, g);
        if native_mem && 0 < imm12(word) <= MCPI_MAX_NATIVE {
            let m = vm.spec_memory()@;
            let d = decoded(word, g, native_mem)->0;
            let x = after_gas(vm, d.gas);
            match executed(vm, word, g) {
                None => {},
                Some((after, m2, res)) => {
                    if res is Ok {
                        let (dst, src) = (x[reg_a(word) as int] as int, x[reg_b(word) as int] as int);
                        assert forall|i: int| 0 <= i < imm12(word) implies #[trigger] m2.flat()[dst + i]
                            == m.flat()[src + i] by {
                            assert(m2.flat()[dst + i] == m.flat()[src + ((dst + i) - dst)]);
                        }
                    }
                },
            }
        }
    }
}

/// What LB, LW, SB, SW and MCPI charge.
pub open spec fn mem_or_load_cost(word: u32, g: GasCosts) -> u64 {
    let op = opcode_of(word);
    if op == LB { g.lb } else if op == LW { g.lw } else if op == SB { g.sb } else if op == SW { g.sw }
    else { g.mcpi.spec_resolve(imm12(word) as u64) as u64 }
}

/// A block ends with a native JAL exactly when memory writers are on and its return
/// register is the zero register or writable. The native jump charges what the
/// interpreter charges and reads its target register before it writes the return
/// address; where the interpreter succeeds and the two registers differ (or the
/// return address is discarded), it lands where the interpreter does, its target
/// register plus its offset, and the return address goes to the register the
/// instruction names.
pub proof fn law_native_jal<T>(vm: Interpreter<T>, word: u32, g: GasCosts)
    requires
        g.well_formed(),
        opcode_of(word) == JAL,
    ensures
        jal_term(word, g, true) is Some <==> reg_a(word) == 0 || reg_a(word) >= 16,
        jal_term(word, g, false) is None,
        match jal_term(word, g, true) {
            Some(BlockStep::TermJal { ret, target_reg, add, gas }) => {
                let x = after_gas(vm, gas);
                let link: u64 = if x[REG_PC as int] + 4 > u64::MAX { u64::MAX } else { (x[REG_PC as int] + 4) as u64 };
                &&& gas == g.jmp
                &&& ret == reg_a(word)
                &&& match executed(vm, word, g) {
                    Some((after, m2, res)) => res is Ok ==> (ret == 0 || ret != target_reg
                        ==> after[REG_PC as int] == x[target_reg as int] + add) && (ret != 0 ==> after[ret as int] == link),
                    None => false,
                }
            },
            Some(_) => false,
            None => true,
        },
{
    law_jump_and_link(vm, word, g);
    vm.lemma_register_count();
    assert(((word >> 18u32) & 0x3fu32) < 64) by (bit_vector);
    assert(((word >> 12u32) & 0x3fu32) < 64) by (bit_vector);
}

/// A block runs CFEI, CFSI, PSHL, PSHH, POPL and POPH natively exactly when memory
/// writers are on, charging what the interpreter charges. A native move of the stack
/// pointer by `delta` agrees with the interpreter, which moves it up by the immediate
/// for CFEI and down by it for CFSI; a native push or pop of the registers from
/// `base` on that `mask` selects is the interpreter's push or pop of the segment of
/// program registers that starts at `base`, with that mask.
pub proof fn law_native_stack_ops<T>(vm: Interpreter<T>, word: u32, g: GasCosts, native_mem: bool)
    requires
        g.well_formed(),
        opcode_of(word) == CFEI || opcode_of(word) == CFSI || opcode_of(word) == PSHL || opcode_of(word) == PSHH
            || opcode_of(word) == POPL || opcode_of(word) == POPH,
    ensures
        decoded(word, g, native_mem) is Some <==> native_mem,
        match decoded(word, g, native_mem) {
            None => true,
            Some(d) => {
                let x = after_gas(vm, d.gas);
                let op = opcode_of(word);
                &&& d.gas == if op == CFEI { g.cfei.spec_resolve(imm24(word) as u64) as u64 } else if op == CFSI { g.cfsi }
                    else if op == PSHL { g.pshl } else if op == PSHH { g.pshh } else if op == POPL { g.popl } else { g.poph }
                &&& match d.kind {
                    OpKind::StackPtr { delta } => match executed(vm, word, g) {
                        Some((after, m2, res)) => res is Ok ==> after[REG_SP as int] == x[REG_SP as int] + delta,
                        None => false,
                    },
                    OpKind::StackRegs { base, mask, push } => {
                        let seg = if base == 16 { ProgramRegistersSegment::Low } else { ProgramRegistersSegment::High };
                        &&& 16 + segment_base(seg) == base
                        &&& executed(vm, word, g) == Some(stack_registers_outcome(vm, seg, push, mask, d.gas))
                    },
                    _ => false,
                }
            },
        },
{
    vm.lemma_register_count();
}

/// The quarter-word (two bytes) and half-word (four bytes) loads and stores run
/// natively as loads into register `a` from register `b` plus the immediate in
/// elements, and stores of register `b` at register `a` plus the immediate in
/// elements, of that many bytes, charging what a word load or store charges; loads
/// need a writable destination and stores memory writers switched on. NOOP runs as a
/// native no-op.
pub proof fn law_native_narrow_ops(word: u32, g: GasCosts, native_mem: bool)
    requires
        g.well_formed(),
    ensures
        ({
            let op = opcode_of(word);
            let (a, b, i) = (reg_a(word), reg_b(word), imm12(word));
            let n: u8 = if op == LQW || op == SQW { 2 } else { 4 };
            &&& (op == LQW || op == LHW) ==> decoded(word, g, native_mem) == if a >= 16 {
                Some(DecodedOp { kind: OpKind::Load { dest: a, base: b, offset: (i * n) as u64, nbytes: n }, gas: g.lw })
            } else {
                None
            }
            &&& (op == SQW || op == SHW) ==> decoded(word, g, native_mem) == if native_mem {
                Some(DecodedOp { kind: OpKind::Store { base: a, value: b, offset: (i * n) as u64, nbytes: n }, gas: g.sw })
            } else {
                None
            }
            &&& op == NOOP ==> decoded(word, g, native_mem) == Some(DecodedOp { kind: OpKind::Noop, gas: g.noop })
        }),
{
}

/// CFEI and CFE move the stack pointer up, and CFSI and CFS down, by the immediate or
/// by register `a`; each fails when the stack pointer would leave the stack start or
/// pass the heap pointer, and otherwise changes no other register but the program
/// counter, which moves to the next instruction, and leaves what every address of
/// memory reads unchanged.
pub proof fn law_stack_moves<T>(vm: Interpreter<T>, word: u32, g: GasCosts)
    requires
        g.well_formed(),
        vm.inv(),
        opcode_of(word) == CFEI || opcode_of(word) == CFE || opcode_of(word) == CFSI || opcode_of(word) == CFS,
    ensures
        executed(vm, word, g) is Some,
        match executed(vm, word, g) {
            None => false,
            Some((after, m2, res)) => {
                let op = opcode_of(word);
                let regs = vm.spec_registers();
                let a = reg_a(word) as int;
                let cost = if op == CFEI { g.cfei.spec_resolve(imm24(word) as u64) } else if op == CFE {
                    g.cfe.spec_resolve(regs[a])
                } else {
                    g.cfsi as int
                };
                let x = charged(regs, cost).0;
                let amount: int = if op == CFEI || op == CFSI { imm24(word) as int } else if op == CFE { regs[a] as int } else {
                    x[a] as int
                };
                let new_sp: int = if op == CFEI || op == CFE { x[REG_SP as int] + amount } else { x[REG_SP as int] - amount };
                &&& res is Ok ==> after == x.update(REG_SP as int, new_sp as u64).update(REG_PC as int, (x[REG_PC as int] + 4) as u64)
                &&& res is Ok ==> m2.flat() == vm.spec_memory()@.flat()
                &&& charged(regs, cost).1 is Ok && (new_sp < x[REG_SSP as int] || new_sp > x[REG_HP as int]) ==> res is Err
            },
        },
{
    vm.lemma_register_count();
    vm.spec_memory().lemma_valid();
    assert(((word >> 18u32) & 0x3fu32) < 64) by (bit_vector);
    let m = vm.spec_memory()@;
    match executed(vm, word, g) {
        None => {},
        Some((after, m2, res)) => {
            if res is Ok && m2 != m {
                let k = m2.stack.len() - m.stack.len();
                assert(m2.stack == m.stack + crate::memory::zeros(k));
                assert(m2.flat() =~= m.flat());
            }
        },
    }
}

/// ALOC moves the heap pointer down by register `a` bytes, failing when that passes
/// address zero or the stack pointer; the bytes it hands out read as zero and every
/// other address of memory reads as before. FLAG sets the flags register to register
/// `a`, failing on a value with a bit other than the two flags. Neither changes any
/// other register but the program counter, which moves to the next instruction.
pub proof fn law_alloc_and_flags<T>(vm: Interpreter<T>, word: u32, g: GasCosts)
    requires
        g.well_formed(),
        vm.inv(),
        opcode_of(word) == ALOC || opcode_of(word) == FLAG,
    ensures
        executed(vm, word, g) is Some,
        match executed(vm, word, g) {
            None => false,
            Some((after, m2, res)) => {
                let regs = vm.spec_registers();
                let m = vm.spec_memory()@;
                let a = reg_a(word) as int;
                let n = regs[a] as int;
                let cost = if opcode_of(word) == ALOC { g.aloc.spec_resolve(regs[a]) } else { g.flag as int };
                let x = charged(regs, cost).0;
                let next = (x[REG_PC as int] + 4) as u64;
                let runs = charged(regs, cost).1 is Ok && x[REG_PC as int] + 4 <= u64::MAX;
                &&& opcode_of(word) == ALOC ==> {
                    &&& res is Ok <==> runs && n <= m.hp && m.hp - n >= x[REG_SP as int]
                    &&& res is Ok ==> after == x.update(REG_HP as int, (m.hp - n) as u64).update(REG_PC as int, next)
                    &&& res is Ok ==> forall|i: int| 0 <= i < MEM_SIZE ==> #[trigger] m2.flat()[i]
                        == if m.hp - n <= i < m.hp { 0u8 } else { m.flat()[i] }
                }
                &&& opcode_of(word) == FLAG ==> {
                    &&& res is Ok <==> runs && x[a] < 4
                    &&& res is Ok ==> after == x.update(REG_FLAG as int, x[a]).update(REG_PC as int, next)
                    &&& m2 == m
                }
            },
        },
{
    vm.lemma_register_count();
    vm.spec_memory().lemma_valid();
    assert(((word >> 18u32) & 0x3fu32) < 64) by (bit_vector);
    let regs = vm.spec_registers();
    let m = vm.spec_memory()@;
    if opcode_of(word) == FLAG {
        let cost = g.flag as int;
        let x = charged(regs, cost).0;
        let v = x[reg_a(word) as int];
        assert(v & 3u64 == v <==> v < 4) by (bit_vector);
    } else {
        let n = regs[reg_a(word) as int] as int;
        if 0 <= n <= m.hp {
            let new_hp = m.hp - n;
            let m2 = vm.spec_memory().heap_grown(new_hp);
            assert forall|i: int| 0 <= i < MEM_SIZE implies #[trigger] m2.flat()[i]
                == if new_hp <= i < m.hp { 0u8 } else { m.flat()[i] } by {
                if i < m2.stack.len() {
                } else if i < new_hp {
                } else if i < m.hp {
                } else {
                }
            }
        }
    }
}

/// Whether a block may run the operation `op` natively: the register operations, the
/// loads and stores, MCPI, the stack pointer moves and register stack operations, and
/// NOOP.
pub open spec fn native_subset(op: u8) -> bool {
    native_register_op(op) || op == NOOP || op == LB || op == LQW || op == LHW || op == LW || op == SB
        || op == SQW || op == SHW || op == SW || op == MCPI || op == CFEI || op == CFSI || op == PSHL
        || op == PSHH || op == POPL || op == POPH
}

/// Every other instruction, multiplication, division and jumps among them, is never
/// run natively: a block ends before it or runs it through the interpreter.
pub proof fn law_native_subset_only(word: u32, g: GasCosts, native_mem: bool)
    requires
        !native_subset(opcode_of(word)),
    ensures
        decoded(word, g, native_mem) is None,
{
}

/// Every instruction pays its gas first. With the context gas at most the global gas,
/// a cost within the context gas comes off both gas registers; a larger cost runs out
/// of gas, emptying the context gas and taking from the global gas what the context
/// had. No other register changes.
pub proof fn law_gas_payment(regs: Seq<u64>, gas: int)
    requires
        regs.len() == 64,
        0 <= gas,
        regs[REG_CGAS as int] <= regs[REG_GGAS as int],
    ensures
        ({
            let (x, res) = charged(regs, gas);
            let (cgas, ggas) = (regs[REG_CGAS as int] as int, regs[REG_GGAS as int] as int);
            &&& gas <= cgas ==> res is Ok && x[REG_CGAS as int] == cgas - gas && x[REG_GGAS as int] == ggas - gas
            &&& gas > cgas ==> res == Err::<(), PanicOrBug>(PanicOrBug::Panic(PanicReason::OutOfGas))
                && x[REG_CGAS as int] == 0 && x[REG_GGAS as int] == ggas - cgas
            &&& x.len() == 64
            &&& forall|i: int| 0 <= i < 64 && i != REG_CGAS && i != REG_GGAS ==> #[trigger] x[i] == regs[i]
        }),
{
}
} // verus!
