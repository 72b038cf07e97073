use fuel_asm::op;
use fuel_vm::consts::{REG_CGAS, REG_GGAS, REG_HP, REG_IS, REG_PC, REG_SP, REG_SSP, VM_MAX_RAM};
use fuel_vm::error::{BugVariant, PanicOrBug, PanicReason};
use fuel_vm::gas::{DependentCost, GasCosts};
use fuel_vm::interpreter::{Context, Interpreter, NoTrace, PanicInstruction};
use fuel_vm::memory::MemoryInstance;
use fuel_vm::metadata::TxFields;
use fuel_vm::receipts::{Receipt, ReceiptsCtx, MAX_RECEIPTS};
use fuel_vm::run::{RunOutcome, ScriptExecutionResult};
use fuel_vm::state::ProgramState;

fn gas() -> GasCosts {
    GasCosts {
        add: 1,
        addi: 1,
        sub: 1,
        subi: 1,
        and_op: 1,
        andi: 1,
        or_op: 1,
        ori: 1,
        xor: 1,
        xori: 1,
        not_op: 1,
        move_op: 1,
        movi: 1,
        eq_op: 1,
        lt: 1,
        gt: 1,
        sll: 1,
        slli: 1,
        srl: 1,
        srli: 1,
        noop: 1,
        flag: 2,
        lb: 3,
        lw: 4,
        sb: 5,
        sw: 6,
        ji: 7,
        jmp: 8,
        jne: 9,
        jnei: 10,
        jnzi: 11,
        jmpf: 12,
        jmpb: 13,
        jnzf: 14,
        jnzb: 15,
        jnef: 16,
        jneb: 17,
        cfsi: 18,
        pshl: 19,
        pshh: 20,
        popl: 21,
        poph: 22,
        aloc: DependentCost::from_units_per_gas(30, 10),
        cfe: DependentCost::from_gas_per_unit(31, 1),
        cfei: DependentCost::from_gas_per_unit(32, 1),
        mcl: DependentCost::from_units_per_gas(33, 8),
        mcli: DependentCost::from_units_per_gas(34, 8),
        mcp: DependentCost::from_units_per_gas(35, 8),
        mcpi: DependentCost::from_units_per_gas(36, 8),
        meq: DependentCost::from_units_per_gas(37, 8),
        mul: 40,
        muli: 41,
        div: 42,
        divi: 43,
        mod_op: 44,
        modi: 45,
        ret: 46,
        rvrt: 47,
        gtf: 48,
    }
}

fn tx() -> TxFields {
    TxFields {
        tx_type: 0,
        script_gas_limit: 1000,
        policy_types: 0,
        tip: None,
        witness_limit: None,
        maturity: None,
        max_fee: None,
        inputs: vec![],
        outputs: vec![],
        witnesses: vec![],
        script: None,
        create: None,
        contract_output_index: vec![],
        tx_size: 77,
        tx_offset: 0,
    }
}

fn script(code: &[fuel_asm::Instruction], gas: u64) -> Interpreter<NoTrace> {
    let bytes: Vec<u8> = code.iter().flat_map(|i| i.to_bytes()).collect();
    let mut memory = MemoryInstance::new();
    memory.grow_stack(bytes.len() as u64).unwrap();
    memory.write_noownerchecks(0u64, &bytes).unwrap();
    let mut regs = [0u64; 64];
    regs[REG_SP] = bytes.len() as u64;
    regs[REG_SSP] = bytes.len() as u64;
    regs[REG_HP] = VM_MAX_RAM;
    regs[REG_IS] = 0;
    regs[REG_CGAS] = gas;
    regs[REG_GGAS] = gas;
    Interpreter::new(regs, memory, Context::Script { block_height: 1 }, NoTrace)
}

#[test]
fn a_returning_script_reports_success_and_its_gas() {
    let mut vm = script(&[op::movi(16, 5), op::addi(16, 16, 1), op::ret(16)], 1000);
    let out = vm.run_program(&tx(), 12, 1000, &gas(), 100).unwrap();
    assert_eq!(
        out,
        RunOutcome::Finished { result: ScriptExecutionResult::Success, state: ProgramState::Return(6), gas_used: 48 }
    );
    assert_eq!(vm.remaining_gas(), 952);
    assert_eq!(
        vm.receipts(),
        &[
            Receipt::Return { id: [0; 32], val: 6, pc: 8, is: 0 },
            Receipt::ScriptResult { result: ScriptExecutionResult::Success, gas_used: 48 },
        ][..]
    );
}

#[test]
fn a_reverting_script_reports_the_revert() {
    let mut vm = script(&[op::movi(16, 3), op::rvrt(16)], 1000);
    let out = vm.run_program(&tx(), 8, 1000, &gas(), 100).unwrap();
    assert_eq!(
        out,
        RunOutcome::Finished { result: ScriptExecutionResult::Revert, state: ProgramState::Revert(3), gas_used: 48 }
    );
    assert_eq!(vm.receipts()[0], Receipt::Revert { id: [0; 32], ra: 3, pc: 4, is: 0 });
    assert_eq!(vm.receipts().len(), 2);
}

#[test]
fn a_panicking_script_ends_in_revert_zero_after_a_panic_receipt() {
    let mut vm = script(&[op::movi(5, 1)], 1000);
    let out = vm.run_program(&tx(), 4, 1000, &gas(), 100).unwrap();
    assert_eq!(
        out,
        RunOutcome::Finished { result: ScriptExecutionResult::Panic, state: ProgramState::Revert(0), gas_used: 1 }
    );
    let word = u32::from_be_bytes(op::movi(5, 1).to_bytes());
    assert_eq!(
        vm.receipts(),
        &[
            Receipt::Panic {
                id: [0; 32],
                reason: PanicInstruction { reason: PanicReason::ReservedRegisterNotWritable, instruction: word },
                pc: 0,
                is: 0,
                contract_id: None,
            },
            Receipt::ScriptResult { result: ScriptExecutionResult::Panic, gas_used: 1 },
        ][..]
    );
}

#[test]
fn running_past_the_code_panics() {
    let mut vm = script(&[op::noop()], 1000);
    let out = vm.run_program(&tx(), 4, 1000, &gas(), 100).unwrap();
    assert_eq!(
        out,
        RunOutcome::Finished { result: ScriptExecutionResult::Panic, state: ProgramState::Revert(0), gas_used: 1 }
    );
    assert!(matches!(vm.receipts()[0], Receipt::Panic { pc: 4, .. }));
}

#[test]
fn an_empty_script_returns_one() {
    let mut vm = script(&[], 1000);
    let out = vm.run_program(&tx(), 0, 1000, &gas(), 100).unwrap();
    assert_eq!(
        out,
        RunOutcome::Finished { result: ScriptExecutionResult::Success, state: ProgramState::Return(1), gas_used: 0 }
    );
    assert_eq!(
        vm.receipts(),
        &[
            Receipt::Return { id: [0; 32], val: 1, pc: 0, is: 0 },
            Receipt::ScriptResult { result: ScriptExecutionResult::Success, gas_used: 0 },
        ][..]
    );
}

#[test]
fn other_instructions_go_to_the_caller_and_budgets_pause() {
    let call = op::call(16, 17, 18, 19);
    let mut vm = script(&[call], 1000);
    let before = *vm.registers();
    assert_eq!(vm.run_program(&tx(), 4, 1000, &gas(), 100), Ok(RunOutcome::Host(call.to_bytes())));
    assert_eq!(*vm.registers(), before);
    let mut vm = script(&[op::noop(), op::noop(), op::ret(0)], 1000);
    assert_eq!(vm.run_program(&tx(), 12, 1000, &gas(), 1), Ok(RunOutcome::Paused));
    assert_eq!(vm.registers()[REG_PC], 4);
    assert!(matches!(vm.run_program(&tx(), 12, 1000, &gas(), 10), Ok(RunOutcome::Finished { .. })));
}

#[test]
fn gas_used_cannot_exceed_the_limit() {
    let mut vm = script(&[op::ret(0)], 1000);
    assert_eq!(
        vm.finish_script(ScriptExecutionResult::Success, ProgramState::Return(0), 10),
        Err(PanicOrBug::Bug(BugVariant::GlobalGasUnderflow))
    );
    assert!(vm.receipts().is_empty());
    assert_eq!(
        vm.finish_script(ScriptExecutionResult::Success, ProgramState::Return(0), 1500),
        Ok((ScriptExecutionResult::Success, ProgramState::Return(0), 500))
    );
}

#[test]
fn the_last_receipt_slots_are_kept_for_the_end() {
    let mut r = ReceiptsCtx::new();
    let ret = Receipt::Return { id: [0; 32], val: 0, pc: 0, is: 0 };
    for _ in 0..MAX_RECEIPTS - 2 {
        r.push(ret).unwrap();
    }
    assert_eq!(r.push(ret), Err(PanicOrBug::Panic(PanicReason::TooManyReceipts)));
    let panic = Receipt::Panic {
        id: [0; 32],
        reason: PanicInstruction { reason: PanicReason::OutOfGas, instruction: 0 },
        pc: 0,
        is: 0,
        contract_id: None,
    };
    assert_eq!(r.push(panic), Ok(()));
    assert_eq!(r.push(panic), Err(PanicOrBug::Panic(PanicReason::TooManyReceipts)));
    let end = Receipt::ScriptResult { result: ScriptExecutionResult::Panic, gas_used: 0 };
    assert_eq!(r.push(end), Ok(()));
    assert_eq!(r.push(end), Err(PanicOrBug::Bug(BugVariant::ReceiptsCtxFull)));
    assert_eq!(r.len(), MAX_RECEIPTS);
}

#[test]
fn scripts_read_transaction_fields() {
    let mut vm = script(&[op::gtf(16, 0, 0x00E), op::ret(16)], 1000);
    let out = vm.run_program(&tx(), 8, 1000, &gas(), 100).unwrap();
    assert_eq!(
        out,
        RunOutcome::Finished { result: ScriptExecutionResult::Success, state: ProgramState::Return(77), gas_used: 94 }
    );
}
