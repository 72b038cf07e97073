use fuel_asm::{op, Opcode};
use fuel_vm::gas::{DependentCost, GasCosts};
use fuel_vm::jit::{
    decode_op, dyn_reg, gas_fingerprint, terminator_class, is_mem_op, is_terminator_thunkable, is_thunkable, native_jal_term,
    next_scan_step, scan_block, thunk_index, BitOp, BlockStep, Cmp, DecodedOp, JitState,
    OpKind, Rhs, ScanStep, MAX_BLOCK_OPS, MAX_MEM_OPS,
};
use fuel_vm::opcode;

fn costs() -> GasCosts {
    GasCosts {
        add: 1,
        addi: 2,
        sub: 3,
        subi: 4,
        and_op: 5,
        andi: 6,
        or_op: 7,
        ori: 8,
        xor: 9,
        xori: 10,
        not_op: 11,
        move_op: 12,
        movi: 13,
        eq_op: 14,
        lt: 15,
        gt: 16,
        sll: 17,
        slli: 18,
        srl: 19,
        srli: 20,
        noop: 21,
        flag: 40,
        lb: 22,
        lw: 23,
        sb: 24,
        sw: 25,
        ji: 41,
        jmp: 33,
        jne: 42,
        jnei: 43,
        jnzi: 44,
        jmpf: 45,
        jmpb: 46,
        jnzf: 47,
        jnzb: 48,
        jnef: 49,
        jneb: 50,
        cfsi: 26,
        pshl: 27,
        pshh: 28,
        popl: 29,
        poph: 32,
        aloc: DependentCost::from_units_per_gas(51, 1),
        cfe: DependentCost::from_gas_per_unit(52, 1),
        cfei: DependentCost::from_gas_per_unit(31, 2),
        mcl: DependentCost::from_units_per_gas(53, 8),
        mcli: DependentCost::from_units_per_gas(54, 8),
        mcp: DependentCost::from_units_per_gas(55, 8),
        mcpi: DependentCost::from_units_per_gas(30, 4),
        meq: DependentCost::from_units_per_gas(56, 8),
        mul: 40,
        muli: 41,
        div: 42,
        divi: 43,
        mod_op: 44,
        modi: 45,
        ret: 46,
        rvrt: 47,
        gtf: 48,
    }
}

fn word(i: fuel_asm::Instruction) -> u32 {
    u32::from_be_bytes(i.to_bytes())
}

fn bytes(instrs: &[fuel_asm::Instruction]) -> Vec<u8> {
    instrs.iter().flat_map(|i| i.to_bytes()).collect()
}

#[test]
fn opcode_numbers_match_the_instruction_set() {
    let pairs: Vec<(u8, Opcode)> = vec![
        (opcode::ADD, Opcode::ADD),
        (opcode::AND, Opcode::AND),
        (opcode::DIV, Opcode::DIV),
        (opcode::EQ, Opcode::EQ),
        (opcode::EXP, Opcode::EXP),
        (opcode::GT, Opcode::GT),
        (opcode::LT, Opcode::LT),
        (opcode::MLOG, Opcode::MLOG),
        (opcode::MROO, Opcode::MROO),
        (opcode::MOD, Opcode::MOD),
        (opcode::MOVE, Opcode::MOVE),
        (opcode::MUL, Opcode::MUL),
        (opcode::NOT, Opcode::NOT),
        (opcode::OR, Opcode::OR),
        (opcode::SLL, Opcode::SLL),
        (opcode::SRL, Opcode::SRL),
        (opcode::SUB, Opcode::SUB),
        (opcode::XOR, Opcode::XOR),
        (opcode::MLDV, Opcode::MLDV),
        (opcode::ALOC, Opcode::ALOC),
        (opcode::MCL, Opcode::MCL),
        (opcode::MCP, Opcode::MCP),
        (opcode::MEQ, Opcode::MEQ),
        (opcode::NOOP, Opcode::NOOP),
        (opcode::FLAG, Opcode::FLAG),
        (opcode::JMP, Opcode::JMP),
        (opcode::JNE, Opcode::JNE),
        (opcode::ADDI, Opcode::ADDI),
        (opcode::ANDI, Opcode::ANDI),
        (opcode::DIVI, Opcode::DIVI),
        (opcode::EXPI, Opcode::EXPI),
        (opcode::MODI, Opcode::MODI),
        (opcode::MULI, Opcode::MULI),
        (opcode::ORI, Opcode::ORI),
        (opcode::SLLI, Opcode::SLLI),
        (opcode::SRLI, Opcode::SRLI),
        (opcode::SUBI, Opcode::SUBI),
        (opcode::XORI, Opcode::XORI),
        (opcode::JNEI, Opcode::JNEI),
        (opcode::LB, Opcode::LB),
        (opcode::LW, Opcode::LW),
        (opcode::SB, Opcode::SB),
        (opcode::SW, Opcode::SW),
        (opcode::MCPI, Opcode::MCPI),
        (opcode::GTF, Opcode::GTF),
        (opcode::LQW, Opcode::LQW),
        (opcode::LHW, Opcode::LHW),
        (opcode::SQW, Opcode::SQW),
        (opcode::SHW, Opcode::SHW),
        (opcode::MCLI, Opcode::MCLI),
        (opcode::GM, Opcode::GM),
        (opcode::MOVI, Opcode::MOVI),
        (opcode::JNZI, Opcode::JNZI),
        (opcode::JMPF, Opcode::JMPF),
        (opcode::JMPB, Opcode::JMPB),
        (opcode::JNZF, Opcode::JNZF),
        (opcode::JNZB, Opcode::JNZB),
        (opcode::JNEF, Opcode::JNEF),
        (opcode::JI, Opcode::JI),
        (opcode::CFEI, Opcode::CFEI),
        (opcode::CFSI, Opcode::CFSI),
        (opcode::CFE, Opcode::CFE),
        (opcode::CFS, Opcode::CFS),
        (opcode::PSHL, Opcode::PSHL),
        (opcode::PSHH, Opcode::PSHH),
        (opcode::POPL, Opcode::POPL),
        (opcode::POPH, Opcode::POPH),
        (opcode::JAL, Opcode::JAL),
        (opcode::WDCM, Opcode::WDCM),
        (opcode::WQCM, Opcode::WQCM),
        (opcode::WDOP, Opcode::WDOP),
        (opcode::WQOP, Opcode::WQOP),
        (opcode::WDML, Opcode::WDML),
        (opcode::WQML, Opcode::WQML),
        (opcode::WDDV, Opcode::WDDV),
        (opcode::WQDV, Opcode::WQDV),
        (opcode::WDMD, Opcode::WDMD),
        (opcode::WQMD, Opcode::WQMD),
        (opcode::WDAM, Opcode::WDAM),
        (opcode::WQAM, Opcode::WQAM),
        (opcode::WDMM, Opcode::WDMM),
        (opcode::WQMM, Opcode::WQMM),
    ];
    for (n, o) in pairs {
        assert_eq!(n, o as u8);
    }
}

#[test]
fn operand_fields_match_the_encoding() {
    let w = word(op::lw(0x11, 0x22, 0x345));
    assert_eq!(opcode::opcode(w), opcode::LW);
    assert_eq!(opcode::ra(w), 0x11);
    assert_eq!(opcode::rb(w), 0x22);
    assert_eq!(opcode::imm12_of(w), 0x345);
    let w = word(op::add(0x3f, 0x01, 0x2a));
    assert_eq!(opcode::rc(w), 0x2a);
    let w = word(op::movi(0x10, 0x3_ffff));
    assert_eq!(opcode::imm18_of(w), 0x3_ffff);
    let w = word(op::cfei(0xab_cdef));
    assert_eq!(opcode::imm24_of(w), 0xab_cdef);
    let i = op::noop();
    assert_eq!(opcode::word_from_bytes(i.to_bytes()), u32::from(i));
}

#[test]
fn decode_arithmetic() {
    let g = costs();
    assert_eq!(
        decode_op(word(op::add(0x10, 0x11, 0x12)), &g, true),
        Some(DecodedOp { kind: OpKind::AddSub { dest: 0x10, b: 0x11, rhs: Rhs::Reg(0x12), sub: false }, gas: 1 })
    );
    assert_eq!(
        decode_op(word(op::subi(0x20, 0x01, 7)), &g, true),
        Some(DecodedOp { kind: OpKind::AddSub { dest: 0x20, b: 0x01, rhs: Rhs::Imm(7), sub: true }, gas: 4 })
    );
    assert_eq!(
        decode_op(word(op::xori(0x20, 0x01, 0xfff)), &g, false),
        Some(DecodedOp { kind: OpKind::Bit { dest: 0x20, b: 0x01, rhs: Rhs::Imm(0xfff), op: BitOp::Xor }, gas: 10 })
    );
    assert_eq!(
        decode_op(word(op::lt(0x30, 0x31, 0x32)), &g, false),
        Some(DecodedOp { kind: OpKind::Cmp { dest: 0x30, b: 0x31, c: 0x32, cc: Cmp::Lt }, gas: 15 })
    );
    assert_eq!(
        decode_op(word(op::movi(0x10, 0x2_0000)), &g, false),
        Some(DecodedOp { kind: OpKind::Movi { dest: 0x10, imm: 0x2_0000 }, gas: 13 })
    );
    assert_eq!(
        decode_op(word(op::srli(0x10, 0x11, 3)), &g, false),
        Some(DecodedOp { kind: OpKind::Shift { dest: 0x10, b: 0x11, rhs: Rhs::Imm(3), right: true }, gas: 20 })
    );
    assert_eq!(decode_op(word(op::noop()), &g, false), Some(DecodedOp { kind: OpKind::Noop, gas: 21 }));
}

#[test]
fn decode_rejects_reserved_destination() {
    let g = costs();
    assert_eq!(decode_op(word(op::add(0x0f, 0x11, 0x12)), &g, true), None);
    assert_eq!(decode_op(word(op::move_(0x01, 0x11)), &g, true), None);
    assert_eq!(decode_op(word(op::lw(0x05, 0x11, 1)), &g, true), None);
}

#[test]
fn decode_memory_operations() {
    let g = costs();
    assert_eq!(
        decode_op(word(op::lqw(0x10, 0x11, 3)), &g, false),
        Some(DecodedOp { kind: OpKind::Load { dest: 0x10, base: 0x11, offset: 6, nbytes: 2 }, gas: 23 })
    );
    assert_eq!(
        decode_op(word(op::lb(0x10, 0x11, 3)), &g, false),
        Some(DecodedOp { kind: OpKind::Load { dest: 0x10, base: 0x11, offset: 3, nbytes: 1 }, gas: 22 })
    );
    assert_eq!(
        decode_op(word(op::sw(0x05, 0x11, 2)), &g, true),
        Some(DecodedOp { kind: OpKind::Store { base: 0x05, value: 0x11, offset: 16, nbytes: 8 }, gas: 25 })
    );
    assert_eq!(decode_op(word(op::sw(0x05, 0x11, 2)), &g, false), None);
    // 8 bytes at 4 units per gas: 30 + 2
    assert_eq!(
        decode_op(word(op::mcpi(0x10, 0x11, 8)), &g, true),
        Some(DecodedOp { kind: OpKind::Mcpi { dst: 0x10, src: 0x11, len: 8 }, gas: 32 })
    );
    assert_eq!(decode_op(word(op::mcpi(0x10, 0x11, 0)), &g, true), None);
    assert_eq!(decode_op(word(op::mcpi(0x10, 0x11, 129)), &g, true), None);
    assert_eq!(decode_op(word(op::mcpi(0x10, 0x11, 8)), &g, false), None);
    // 5 units at 2 gas each: 31 + 10
    assert_eq!(
        decode_op(word(op::cfei(5)), &g, true),
        Some(DecodedOp { kind: OpKind::StackPtr { delta: 5 }, gas: 41 })
    );
    assert_eq!(
        decode_op(word(op::cfsi(5)), &g, true),
        Some(DecodedOp { kind: OpKind::StackPtr { delta: -5 }, gas: 26 })
    );
    assert_eq!(decode_op(word(op::cfei(5)), &g, false), None);
    assert_eq!(
        decode_op(word(op::poph(0b101)), &g, true),
        Some(DecodedOp { kind: OpKind::StackRegs { base: 40, mask: 0b101, push: false }, gas: 32 })
    );
    assert_eq!(decode_op(word(op::mul(0x10, 0x11, 0x12)), &g, true), None);
}

#[test]
fn thunk_tables() {
    assert_eq!(thunk_index(opcode::LB), Some(0));
    assert_eq!(thunk_index(opcode::NOOP), Some(51));
    assert_eq!(thunk_index(opcode::JAL), Some(52));
    assert_eq!(thunk_index(opcode::JNEF), Some(62));
    assert_eq!(thunk_index(opcode::ADD), None);
    assert!(is_thunkable(opcode::MUL));
    assert!(is_thunkable(opcode::WQMM));
    assert!(!is_thunkable(opcode::JMP));
    assert!(!is_thunkable(opcode::ADD));
    assert!(is_terminator_thunkable(opcode::JMP));
    assert!(!is_terminator_thunkable(Opcode::JNEB as u8));
    assert!(!is_terminator_thunkable(Opcode::RET as u8));
    assert!(!is_thunkable(Opcode::CALL as u8));
}

#[test]
fn jal_terminator() {
    let g = costs();
    assert_eq!(
        native_jal_term(word(op::jal(0x10, 0x11, 3)), &g, true),
        Some(BlockStep::TermJal { ret: 0x10, target_reg: 0x11, add: 12, gas: 33 })
    );
    assert_eq!(
        native_jal_term(word(op::jal(0x00, 0x11, 3)), &g, true),
        Some(BlockStep::TermJal { ret: 0x00, target_reg: 0x11, add: 12, gas: 33 })
    );
    assert_eq!(native_jal_term(word(op::jal(0x05, 0x11, 3)), &g, true), None);
    assert_eq!(native_jal_term(word(op::jal(0x10, 0x11, 3)), &g, false), None);
    assert_eq!(native_jal_term(word(op::jmp(0x10)), &g, true), None);
}

#[test]
fn mem_ops_are_counted() {
    assert!(is_mem_op(OpKind::Load { dest: 16, base: 0, offset: 0, nbytes: 1 }));
    assert!(is_mem_op(OpKind::StackPtr { delta: 1 }));
    assert!(!is_mem_op(OpKind::Noop));
    assert!(!is_mem_op(OpKind::Movi { dest: 16, imm: 0 }));
}

#[test]
fn scan_decisions() {
    let g = costs();
    let w = word(op::add(0x10, 0x11, 0x12));
    assert_eq!(next_scan_step(false, w, &g, true, true, false, 0), ScanStep::Stop);
    let w = word(op::lw(0x10, 0x11, 0));
    assert_eq!(next_scan_step(true, w, &g, true, true, false, MAX_MEM_OPS), ScanStep::Stop);
    assert!(matches!(next_scan_step(true, w, &g, true, true, false, 3), ScanStep::Push { mem: true, .. }));
    let w = word(op::mul(0x10, 0x11, 0x12));
    assert_eq!(
        next_scan_step(true, w, &g, true, true, false, 0),
        ScanStep::Push { step: BlockStep::Thunk { spec: 24, raw: w }, mem: false }
    );
    assert_eq!(next_scan_step(true, w, &g, false, true, false, 0), ScanStep::Stop);
    let w = word(op::jmp(0x10));
    assert_eq!(next_scan_step(true, w, &g, true, true, false, 0), ScanStep::Stop);
    assert_eq!(
        next_scan_step(true, w, &g, true, true, true, 0),
        ScanStep::Last(BlockStep::Term { spec: 53, raw: w })
    );
}

#[test]
fn scan_a_block() {
    let g = costs();
    let program = bytes(&[
        op::addi(0x10, 0x10, 1),
        op::mul(0x11, 0x10, 0x10),
        op::lw(0x12, 0x11, 0),
        op::jal(0x00, 0x13, 2),
        op::noop(),
    ]);
    let steps = scan_block(&program, &g, true, true);
    assert_eq!(steps.len(), 4);
    assert_eq!(
        steps[0],
        BlockStep::Native(DecodedOp { kind: OpKind::AddSub { dest: 0x10, b: 0x10, rhs: Rhs::Imm(1), sub: false }, gas: 2 })
    );
    assert_eq!(steps[1], BlockStep::Thunk { spec: 24, raw: word(op::mul(0x11, 0x10, 0x10)) });
    assert_eq!(
        steps[2],
        BlockStep::Native(DecodedOp { kind: OpKind::Load { dest: 0x12, base: 0x11, offset: 0, nbytes: 8 }, gas: 23 })
    );
    assert_eq!(steps[3], BlockStep::TermJal { ret: 0, target_reg: 0x13, add: 8, gas: 33 });

    // without thunks the block ends at the multiplication
    let steps = scan_block(&program, &g, false, true);
    assert_eq!(steps.len(), 1);
}

#[test]
fn scan_stops_at_bad_bytes_and_partial_words() {
    let g = costs();
    let mut program = bytes(&[op::noop(), op::noop()]);
    program.extend_from_slice(&[0xff, 0, 0, 0]);
    program.extend_from_slice(&bytes(&[op::noop()]));
    assert_eq!(scan_block(&program, &g, true, true).len(), 2);
    let program = vec![0x47u8, 0, 0];
    assert!(scan_block(&program, &g, true, true).is_empty());
    // a leading jump is left to the interpreter
    let program = bytes(&[op::jmp(0x10), op::noop()]);
    assert!(scan_block(&program, &g, true, true).is_empty());
}

#[test]
fn scan_caps_memory_operations_and_length() {
    let g = costs();
    let program = bytes(&vec![op::lw(0x10, 0x11, 0); 40]);
    assert_eq!(scan_block(&program, &g, true, true).len(), MAX_MEM_OPS);
    let program = bytes(&vec![op::noop(); 300]);
    assert_eq!(scan_block(&program, &g, true, true).len(), MAX_BLOCK_OPS);
}

#[test]
fn fingerprint_is_fnv_over_the_costs() {
    let g = costs();
    let words: Vec<u64> = vec![
        1, 2, 3, 4, 5, 6, 7, 8, 9, 10, 11, 12, 13, 14, 15, 16, 17, 18, 19, 20, 21, 22, 23,
        30, 30 + (1u64 << 24) / 4, 31, 31 + (1u64 << 24) * 2, 26, 27, 28, 29, 32, 33, 24, 25,
    ];
    let mut h: u64 = 0xcbf2_9ce4_8422_2325;
    for c in words {
        h ^= c;
        h = h.wrapping_mul(0x0000_0100_0000_01b3);
    }
    assert_eq!(gas_fingerprint(&g), h);
    let mut other = costs();
    other.jmp = 34;
    assert_ne!(gas_fingerprint(&g), gas_fingerprint(&other));
}

#[test]
fn jit_switches() {
    let mut s = JitState::new(true, false);
    assert!(s.is_enabled());
    assert!(!s.verify_enabled());
    s.set_enabled(false);
    assert!(!s.is_enabled());
    assert!(!s.verify_enabled());
}

#[test]
fn relative_jump_registers() {
    assert_eq!(dyn_reg(word(op::jmpf(0x11, 3))), Some(0x11));
    assert_eq!(dyn_reg(word(op::jnzb(0x10, 0x12, 3))), Some(0x12));
    assert_eq!(dyn_reg(word(op::jneb(0x10, 0x11, 0x13, 3))), Some(0x13));
    assert_eq!(dyn_reg(word(op::jmp(0x11))), None);
    assert_eq!(terminator_class(word(op::jmpf(0, 3))), 1);
    assert_eq!(terminator_class(word(op::jnef(0x10, 0x11, 0x13, 3))), 2);
    assert_eq!(terminator_class(word(op::jal(0x10, 0x11, 3))), 0);
}
