use fuel_asm::op;
use fuel_vm::consts::{REG_CGAS, REG_FLAG, REG_GGAS, REG_HP, REG_IS, REG_PC, REG_SP, REG_SSP, VM_MAX_RAM};
use fuel_vm::error::{PanicOrBug, PanicReason};
use fuel_vm::gas::{DependentCost, GasCosts};
use fuel_vm::interpreter::{Context, Interpreter, NoTrace};
use fuel_vm::memory::MemoryInstance;
use fuel_vm::state::ExecuteState;

fn gas() -> GasCosts {
    GasCosts {
        add: 1,
        addi: 1,
        sub: 1,
        subi: 1,
        and_op: 1,
        andi: 1,
        or_op: 1,
        ori: 1,
        xor: 1,
        xori: 1,
        not_op: 1,
        move_op: 1,
        movi: 1,
        eq_op: 1,
        lt: 1,
        gt: 1,
        sll: 1,
        slli: 1,
        srl: 1,
        srli: 1,
        noop: 1,
        flag: 2,
        lb: 3,
        lw: 4,
        sb: 5,
        sw: 6,
        ji: 7,
        jmp: 8,
        jne: 9,
        jnei: 10,
        jnzi: 11,
        jmpf: 12,
        jmpb: 13,
        jnzf: 14,
        jnzb: 15,
        jnef: 16,
        jneb: 17,
        cfsi: 18,
        pshl: 19,
        pshh: 20,
        popl: 21,
        poph: 22,
        aloc: DependentCost::from_units_per_gas(30, 10),
        cfe: DependentCost::from_gas_per_unit(31, 1),
        cfei: DependentCost::from_gas_per_unit(32, 1),
        mcl: DependentCost::from_units_per_gas(33, 8),
        mcli: DependentCost::from_units_per_gas(34, 8),
        mcp: DependentCost::from_units_per_gas(35, 8),
        mcpi: DependentCost::from_units_per_gas(36, 8),
        meq: DependentCost::from_units_per_gas(37, 8),
        mul: 40,
        muli: 41,
        div: 42,
        divi: 43,
        mod_op: 44,
        modi: 45,
        ret: 46,
        rvrt: 47,
        gtf: 48,
    }
}

fn vm(stack: u64, gas: u64) -> Interpreter<NoTrace> {
    let mut memory = MemoryInstance::new();
    memory.grow_stack(stack).unwrap();
    let mut regs = [0u64; 64];
    regs[REG_SP] = stack;
    regs[REG_SSP] = 0;
    regs[REG_HP] = VM_MAX_RAM;
    regs[REG_CGAS] = gas;
    regs[REG_GGAS] = gas;
    Interpreter::new(regs, memory, Context::Script { block_height: 1 }, NoTrace)
}

fn with_regs(vm: &Interpreter<NoTrace>, set: &[(usize, u64)]) -> Interpreter<NoTrace> {
    let mut regs = *vm.registers();
    for (i, v) in set {
        regs[*i] = *v;
    }
    Interpreter::new(regs, vm.memory().clone(), vm.context().clone(), NoTrace)
}

fn run(vm: &mut Interpreter<NoTrace>, i: fuel_asm::Instruction) -> Option<Result<ExecuteState, PanicOrBug>> {
    vm.instruction_inner(i.to_bytes(), false, &gas())
}

#[test]
fn jumps_charge_and_move() {
    let mut v = with_regs(&vm(0, 1000), &[(16, 5), (REG_IS, 8)]);
    assert_eq!(run(&mut v, op::jmp(16)), Some(Ok(ExecuteState::Proceed)));
    assert_eq!(v.registers()[REG_PC], 28);
    assert_eq!(v.registers()[REG_CGAS], 992);
    assert_eq!(v.registers()[REG_GGAS], 992);
    assert_eq!(run(&mut v, op::ji(2)), Some(Ok(ExecuteState::Proceed)));
    assert_eq!(v.registers()[REG_PC], 16);
    // not taken: just the next instruction
    assert_eq!(run(&mut v, op::jnzi(17, 9)), Some(Ok(ExecuteState::Proceed)));
    assert_eq!(v.registers()[REG_PC], 20);
    assert_eq!(run(&mut v, op::jmpf(0, 1)), Some(Ok(ExecuteState::Proceed)));
    assert_eq!(v.registers()[REG_PC], 28);
    assert_eq!(run(&mut v, op::jmpb(0, 1)), Some(Ok(ExecuteState::Proceed)));
    assert_eq!(v.registers()[REG_PC], 20);
    assert_eq!(run(&mut v, op::jne(16, 0, 16)), Some(Ok(ExecuteState::Proceed)));
    assert_eq!(v.registers()[REG_PC], 28);
    assert_eq!(run(&mut v, op::jmpb(0, 100)), Some(Err(PanicOrBug::Panic(PanicReason::MemoryOverflow))));
    assert_eq!(v.registers()[REG_PC], 28);
}

#[test]
fn running_out_of_gas_stops_before_the_operation() {
    let mut v = with_regs(&vm(0, 5), &[(16, 5)]);
    assert_eq!(run(&mut v, op::jmp(16)), Some(Err(PanicOrBug::Panic(PanicReason::OutOfGas))));
    assert_eq!(v.registers()[REG_PC], 0);
    assert_eq!(v.registers()[REG_CGAS], 0);
    assert_eq!(v.registers()[REG_GGAS], 0);
}

#[test]
fn flags_through_instructions() {
    let mut v = with_regs(&vm(0, 100), &[(16, 1), (17, 8)]);
    assert_eq!(run(&mut v, op::flag(16)), Some(Ok(ExecuteState::Proceed)));
    assert_eq!(v.registers()[REG_FLAG], 1);
    assert_eq!(run(&mut v, op::flag(17)), Some(Err(PanicOrBug::Panic(PanicReason::InvalidFlags))));
    assert_eq!(v.registers()[REG_CGAS], 96);
}

#[test]
fn call_frames_grow_and_shrink() {
    let mut v = vm(0, 1000);
    assert_eq!(run(&mut v, op::cfei(16)), Some(Ok(ExecuteState::Proceed)));
    assert_eq!(v.registers()[REG_SP], 16);
    assert_eq!(v.memory().stack_raw().len(), 16);
    // 32 + 16 gas
    assert_eq!(v.registers()[REG_CGAS], 952);
    assert_eq!(run(&mut v, op::cfsi(8)), Some(Ok(ExecuteState::Proceed)));
    assert_eq!(v.registers()[REG_SP], 8);
    assert_eq!(run(&mut v, op::cfsi(9)), Some(Err(PanicOrBug::Panic(PanicReason::MemoryOverflow))));
    assert_eq!(v.registers()[REG_SP], 8);
    let mut v = with_regs(&v, &[(16, 24)]);
    assert_eq!(run(&mut v, op::cfe(16)), Some(Ok(ExecuteState::Proceed)));
    assert_eq!(v.registers()[REG_SP], 32);
    assert_eq!(run(&mut v, op::cfs(16)), Some(Ok(ExecuteState::Proceed)));
    assert_eq!(v.registers()[REG_SP], 8);
}

#[test]
fn registers_pushed_and_popped_by_instructions() {
    let mut v = with_regs(&vm(0, 1000), &[(16, 7), (17, 8), (40, 9)]);
    assert_eq!(run(&mut v, op::pshl(0b11)), Some(Ok(ExecuteState::Proceed)));
    assert_eq!(run(&mut v, op::pshh(0b1)), Some(Ok(ExecuteState::Proceed)));
    assert_eq!(v.registers()[REG_SP], 24);
    let mut v = with_regs(&v, &[(16, 0), (17, 0), (40, 0)]);
    assert_eq!(run(&mut v, op::poph(0b1)), Some(Ok(ExecuteState::Proceed)));
    assert_eq!(run(&mut v, op::popl(0b11)), Some(Ok(ExecuteState::Proceed)));
    assert_eq!((v.registers()[16], v.registers()[17], v.registers()[40]), (7, 8, 9));
    assert_eq!(v.registers()[REG_SP], 0);
    assert_eq!(v.registers()[REG_PC], 16);
}

#[test]
fn heap_allocation_by_instruction() {
    let mut v = with_regs(&vm(0, 1000), &[(16, 100)]);
    assert_eq!(run(&mut v, op::aloc(16)), Some(Ok(ExecuteState::Proceed)));
    assert_eq!(v.registers()[REG_HP], VM_MAX_RAM - 100);
    assert_eq!(v.registers()[REG_PC], 4);
    // 30 + 100 / 10
    assert_eq!(v.registers()[REG_CGAS], 960);
}

#[test]
fn memory_operations_by_instruction() {
    let mut v = with_regs(&vm(64, 10_000), &[(16, 0), (17, 32), (18, 0x0102_0304_0506_0708), (19, 8)]);
    assert_eq!(run(&mut v, op::sw(16, 18, 1)), Some(Ok(ExecuteState::Proceed)));
    assert_eq!(run(&mut v, op::lw(20, 16, 1)), Some(Ok(ExecuteState::Proceed)));
    assert_eq!(v.registers()[20], 0x0102_0304_0506_0708);
    assert_eq!(run(&mut v, op::lb(21, 16, 8)), Some(Ok(ExecuteState::Proceed)));
    assert_eq!(v.registers()[21], 1);
    assert_eq!(run(&mut v, op::mcpi(17, 16, 16)), Some(Ok(ExecuteState::Proceed)));
    assert_eq!(run(&mut v, op::meq(22, 16, 17, 19)), Some(Ok(ExecuteState::Proceed)));
    assert_eq!(v.registers()[22], 1);
    assert_eq!(run(&mut v, op::mcli(17, 16)), Some(Ok(ExecuteState::Proceed)));
    assert_eq!(run(&mut v, op::meq(22, 16, 17, 19)), Some(Ok(ExecuteState::Proceed)));
    assert_eq!(v.registers()[22], 1);
    let mut v = with_regs(&v, &[(19, 16)]);
    assert_eq!(run(&mut v, op::meq(22, 16, 17, 19)), Some(Ok(ExecuteState::Proceed)));
    assert_eq!(v.registers()[22], 0);
    assert_eq!(run(&mut v, op::mcl(16, 19)), Some(Ok(ExecuteState::Proceed)));
    assert_eq!(run(&mut v, op::mcp(17, 16, 19)), Some(Ok(ExecuteState::Proceed)));
    assert_eq!(run(&mut v, op::sb(16, 18, 3)), Some(Ok(ExecuteState::Proceed)));
    assert_eq!(v.memory().read(3u64, 1u64), Ok(&[0x08u8][..]));
    assert_eq!(run(&mut v, op::lw(5, 16, 0)), Some(Err(PanicOrBug::Panic(PanicReason::ReservedRegisterNotWritable))));
}

#[test]
fn operations_outside_the_library_change_nothing() {
    let mut v = vm(0, 100);
    let before = *v.registers();
    assert_eq!(run(&mut v, op::exp(16, 17, 18)), None);
    assert_eq!(*v.registers(), before);
    assert_eq!(run(&mut v, op::mroo(16, 17, 18)), None);
}

const OF: usize = 2;
const ERR: usize = 8;

#[test]
fn arithmetic_sets_the_destination_and_the_overflow_register() {
    let mut v = with_regs(&vm(0, 1000), &[(17, 3), (18, 4)]);
    assert_eq!(run(&mut v, op::add(16, 17, 18)), Some(Ok(ExecuteState::Proceed)));
    assert_eq!((v.registers()[16], v.registers()[OF], v.registers()[ERR]), (7, 0, 0));
    assert_eq!(v.registers()[REG_PC], 4);
    assert_eq!(v.registers()[REG_CGAS], 999);
    assert_eq!(run(&mut v, op::addi(16, 17, 10)), Some(Ok(ExecuteState::Proceed)));
    assert_eq!(v.registers()[16], 13);
    assert_eq!(run(&mut v, op::sub(16, 18, 17)), Some(Ok(ExecuteState::Proceed)));
    assert_eq!(v.registers()[16], 1);
    assert_eq!(run(&mut v, op::mul(16, 17, 18)), Some(Ok(ExecuteState::Proceed)));
    assert_eq!(v.registers()[16], 12);
    assert_eq!(run(&mut v, op::muli(16, 17, 5)), Some(Ok(ExecuteState::Proceed)));
    assert_eq!(v.registers()[16], 15);
}

#[test]
fn overflow_panics_unless_wrapping() {
    let mut v = with_regs(&vm(0, 1000), &[(17, u64::MAX), (18, 2)]);
    assert_eq!(run(&mut v, op::add(16, 17, 18)), Some(Err(PanicOrBug::Panic(PanicReason::ArithmeticOverflow))));
    assert_eq!(v.registers()[REG_PC], 0);
    let mut v = with_regs(&v, &[(REG_FLAG, 2)]);
    assert_eq!(run(&mut v, op::add(16, 17, 18)), Some(Ok(ExecuteState::Proceed)));
    assert_eq!((v.registers()[16], v.registers()[OF]), (1, 1));
    assert_eq!(run(&mut v, op::sub(16, 18, 17)), Some(Ok(ExecuteState::Proceed)));
    assert_eq!((v.registers()[16], v.registers()[OF]), (3, u64::MAX));
    let mut v = with_regs(&v, &[(17, 1 << 40), (18, 1 << 40)]);
    assert_eq!(run(&mut v, op::mul(16, 17, 18)), Some(Ok(ExecuteState::Proceed)));
    assert_eq!((v.registers()[16], v.registers()[OF]), (0, 1 << 16));
    let mut v = with_regs(&v, &[(REG_FLAG, 0), (17, 1)]);
    assert_eq!(run(&mut v, op::subi(16, 17, 2)), Some(Err(PanicOrBug::Panic(PanicReason::ArithmeticOverflow))));
}

#[test]
fn division_by_zero_is_an_error_unless_unsafe_math() {
    let mut v = with_regs(&vm(0, 1000), &[(17, 17), (18, 5)]);
    assert_eq!(run(&mut v, op::div(16, 17, 18)), Some(Ok(ExecuteState::Proceed)));
    assert_eq!(v.registers()[16], 3);
    assert_eq!(run(&mut v, op::mod_(16, 17, 18)), Some(Ok(ExecuteState::Proceed)));
    assert_eq!(v.registers()[16], 2);
    assert_eq!(run(&mut v, op::divi(16, 17, 4)), Some(Ok(ExecuteState::Proceed)));
    assert_eq!(v.registers()[16], 4);
    assert_eq!(run(&mut v, op::modi(16, 17, 4)), Some(Ok(ExecuteState::Proceed)));
    assert_eq!(v.registers()[16], 1);
    assert_eq!(run(&mut v, op::div(16, 17, 0)), Some(Err(PanicOrBug::Panic(PanicReason::ArithmeticError))));
    let mut v = with_regs(&v, &[(REG_FLAG, 1)]);
    assert_eq!(run(&mut v, op::divi(16, 17, 0)), Some(Ok(ExecuteState::Proceed)));
    assert_eq!((v.registers()[16], v.registers()[ERR]), (0, 1));
    assert_eq!(run(&mut v, op::noop()), Some(Ok(ExecuteState::Proceed)));
    assert_eq!(v.registers()[ERR], 0);
}

#[test]
fn logic_moves_comparisons_and_shifts() {
    let mut v = with_regs(&vm(0, 1000), &[(17, 0b1100), (18, 0b1010)]);
    let cases = [
        (op::and(16, 17, 18), 0b1000),
        (op::andi(16, 17, 0b0110), 0b0100),
        (op::or(16, 17, 18), 0b1110),
        (op::ori(16, 17, 1), 0b1101),
        (op::xor(16, 17, 18), 0b0110),
        (op::xori(16, 17, 0b1111), 0b0011),
        (op::not(16, 17), !0b1100u64),
        (op::move_(16, 18), 0b1010),
        (op::movi(16, 0x3ffff), 0x3ffff),
        (op::eq(16, 17, 17), 1),
        (op::eq(16, 17, 18), 0),
        (op::lt(16, 18, 17), 1),
        (op::gt(16, 18, 17), 0),
        (op::sll(16, 17, 18), 0b1100 << 10),
        (op::slli(16, 17, 64), 0),
        (op::srl(16, 17, 18), 0),
        (op::srli(16, 17, 2), 0b11),
    ];
    for (i, (instr, expected)) in cases.into_iter().enumerate() {
        assert_eq!(run(&mut v, instr), Some(Ok(ExecuteState::Proceed)), "case {i}");
        assert_eq!(v.registers()[16], expected, "case {i}");
    }
    assert_eq!(run(&mut v, op::movi(5, 1)), Some(Err(PanicOrBug::Panic(PanicReason::ReservedRegisterNotWritable))));
}

#[test]
fn bad_bytes_and_forbidden_operations() {
    let mut v = vm(0, 100);
    assert_eq!(
        v.instruction_inner([0xff, 0, 0, 0], false, &gas()),
        Some(Err(PanicOrBug::Panic(PanicReason::InvalidInstruction)))
    );
    // NOOP with its unused bits set
    assert_eq!(
        v.instruction_inner([0x47, 0, 0, 1], false, &gas()),
        Some(Err(PanicOrBug::Panic(PanicReason::InvalidInstruction)))
    );
    assert_eq!(
        v.instruction_inner(op::call(16, 17, 18, 19).to_bytes(), true, &gas()),
        Some(Err(PanicOrBug::Panic(PanicReason::ContractInstructionNotAllowed)))
    );
    assert_eq!(v.instruction_inner(op::call(16, 17, 18, 19).to_bytes(), false, &gas()), None);
    assert_eq!(v.instruction_inner(op::jmp(0).to_bytes(), true, &gas()), Some(Ok(ExecuteState::Proceed)));
}

#[test]
fn jump_and_link_stores_the_return_address() {
    let mut v = with_regs(&vm(0, 1000), &[(17, 40), (REG_PC, 12)]);
    assert_eq!(run(&mut v, op::jal(16, 17, 2)), Some(Ok(ExecuteState::Proceed)));
    assert_eq!(v.registers()[16], 16);
    assert_eq!(v.registers()[REG_PC], 48);
    assert_eq!(v.registers()[REG_CGAS], 992);
    // the zero register discards the return address
    assert_eq!(run(&mut v, op::jal(0, 17, 0)), Some(Ok(ExecuteState::Proceed)));
    assert_eq!(v.registers()[0], 0);
    assert_eq!(v.registers()[REG_PC], 40);
    // other reserved registers refuse it
    assert_eq!(
        run(&mut v, op::jal(REG_FLAG as u8, 17, 0)),
        Some(Err(PanicOrBug::Panic(PanicReason::ReservedRegisterNotWritable)))
    );
    assert_eq!(v.registers()[REG_PC], 40);
}
