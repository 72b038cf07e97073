use fuel_vm::receipts::Receipt;
use fuel_vm::interpreter::call_frame_size;
use fuel_vm::consts::{
    REG_CGAS, REG_FLAG, REG_FP, REG_GGAS, REG_HP, REG_IS, REG_PC, REG_RET, REG_RETL, REG_SP, REG_SSP, VM_MAX_RAM,
};
use fuel_vm::error::{BugVariant, PanicOrBug, PanicReason};
use fuel_vm::flow::{JumpArgs, JumpMode};
use fuel_vm::interpreter::{
    current_contract, internal_contract, set_frame_pointer, tx_id, CallFrame, Context, Interpreter, NoTrace,
};
use fuel_vm::memory::MemoryInstance;
use fuel_vm::memory_ops::ProgramRegistersSegment;

fn vm_with_stack(stack: usize) -> Interpreter<NoTrace> {
    let mut memory = MemoryInstance::new();
    memory.grow_stack(stack as u64).unwrap();
    let mut regs = [0u64; 64];
    regs[REG_SP] = stack as u64;
    regs[REG_HP] = VM_MAX_RAM;
    Interpreter::new(regs, memory, Context::Script { block_height: 7 }, NoTrace)
}

#[test]
fn gas_is_charged_from_both_registers() {
    let mut vm = vm_with_stack(0);
    vm.set_gas(100);
    assert_eq!(vm.gas_charge(30), Ok(()));
    assert_eq!(vm.remaining_gas(), 70);
    assert_eq!(vm.registers()[REG_CGAS], 70);
    assert_eq!(vm.gas_charge(80), Err(PanicOrBug::Panic(PanicReason::OutOfGas)));
    assert_eq!(vm.registers()[REG_CGAS], 0);
    assert_eq!(vm.remaining_gas(), 0);
}

#[test]
fn gas_charge_reports_inconsistent_registers() {
    let mut regs = [0u64; 64];
    regs[REG_CGAS] = 50;
    regs[REG_GGAS] = 10;
    let mut vm = Interpreter::new(regs, MemoryInstance::new(), Context::NotInitialized, NoTrace);
    assert_eq!(vm.gas_charge(20), Err(PanicOrBug::Bug(BugVariant::GlobalGasLessThanContext)));
    assert_eq!(vm.registers()[REG_CGAS], 30);
    assert_eq!(vm.registers()[REG_GGAS], 10);
}

#[test]
fn jumps_move_the_program_counter() {
    let mut vm = vm_with_stack(0);
    assert_eq!(vm.jump(JumpArgs::new(JumpMode::Assign).to_address(40)), Ok(()));
    assert_eq!(vm.registers()[REG_PC], 40);
    assert_eq!(vm.jump(JumpArgs::new(JumpMode::RelativeForwards).plus_fixed(1)), Ok(()));
    assert_eq!(vm.registers()[REG_PC], 48);
    assert_eq!(vm.jump(JumpArgs::new(JumpMode::Assign).with_condition(false)), Ok(()));
    assert_eq!(vm.registers()[REG_PC], 52);
    assert_eq!(
        vm.jump(JumpArgs::new(JumpMode::Assign).to_address(VM_MAX_RAM)),
        Err(PanicOrBug::Panic(PanicReason::MemoryOverflow))
    );
    assert_eq!(
        vm.jump(JumpArgs::new(JumpMode::RelativeBackwards).plus_fixed(20)),
        Err(PanicOrBug::Panic(PanicReason::MemoryOverflow))
    );
    assert_eq!(vm.registers()[REG_PC], 52);
}

#[test]
fn flags_must_be_known() {
    let mut vm = vm_with_stack(0);
    assert_eq!(vm.set_flag(3), Ok(()));
    assert_eq!(vm.registers()[REG_FLAG], 3);
    assert_eq!(vm.registers()[REG_PC], 4);
    assert_eq!(vm.set_flag(4), Err(PanicOrBug::Panic(PanicReason::InvalidFlags)));
    assert_eq!(vm.registers()[REG_FLAG], 3);
}

#[test]
fn returning_restores_the_caller() {
    let mut saved = [0u64; 64];
    saved[REG_CGAS] = 5;
    saved[REG_PC] = 100;
    saved[REG_FP] = 0;
    saved[20] = 9;
    let mut regs = [0u64; 64];
    regs[REG_CGAS] = 10;
    regs[REG_GGAS] = 50;
    regs[REG_RET] = 7;
    regs[REG_RETL] = 1;
    regs[REG_HP] = 1000;
    regs[REG_FP] = 64;
    regs[20] = 1;
    let mut vm = Interpreter::new(regs, MemoryInstance::new(), Context::Call { block_height: 3 }, NoTrace);
    vm.push_frame(CallFrame::new([0; 32], [0; 32], saved, 0, 0, 0));
    assert_eq!(vm.return_from_context_registers(), Ok(()));
    let r = vm.registers();
    assert_eq!(r[REG_CGAS], 15);
    assert_eq!(r[REG_GGAS], 50);
    assert_eq!(r[REG_RET], 7);
    assert_eq!(r[REG_RETL], 1);
    assert_eq!(r[REG_HP], 1000);
    assert_eq!(r[REG_PC], 100);
    assert_eq!(r[20], 9);
    assert_eq!(*vm.context(), Context::Script { block_height: 3 });
    // without frames nothing changes
    assert_eq!(vm.return_from_context_registers(), Ok(()));
    assert_eq!(vm.registers()[REG_PC], 100);
}

#[test]
fn returning_with_too_much_gas_is_a_bug() {
    let mut saved = [0u64; 64];
    saved[REG_CGAS] = u64::MAX;
    let mut regs = [0u64; 64];
    regs[REG_CGAS] = 1;
    let mut vm = Interpreter::new(regs, MemoryInstance::new(), Context::Call { block_height: 3 }, NoTrace);
    vm.push_frame(CallFrame::new([0; 32], [0; 32], saved, 0, 0, 0));
    assert_eq!(vm.return_from_context_registers(), Err(PanicOrBug::Bug(BugVariant::ContextGasOverflow)));
}

#[test]
fn return_value_registers() {
    let mut vm = vm_with_stack(0);
    vm.set_return_value(42);
    assert_eq!(vm.registers()[REG_RET], 42);
    assert_eq!(vm.registers()[REG_RETL], 0);
}

#[test]
fn frame_pointer_switches_context() {
    let mut context = Context::Script { block_height: 1 };
    let mut fp = 0;
    set_frame_pointer(&mut context, &mut fp, 64);
    assert_eq!(fp, 64);
    assert_eq!(context, Context::Call { block_height: 1 });
    assert!(context.is_internal());
    assert!(!context.is_external());
    set_frame_pointer(&mut context, &mut fp, 0);
    assert_eq!(context, Context::Script { block_height: 1 });
    assert_eq!(context.block_height(), Some(1));
    let mut other = Context::NotInitialized;
    other.update_from_frame_pointer(8);
    assert_eq!(other, Context::NotInitialized);
    assert_eq!(other.block_height(), None);
}

#[test]
fn contract_ids_come_from_the_frame() {
    let mut memory = MemoryInstance::new();
    memory.grow_stack(64).unwrap();
    memory.write_noownerchecks(32u64, &[9u8; 32]).unwrap();
    memory.write_noownerchecks(0u64, &[3u8; 32]).unwrap();
    assert_eq!(current_contract(&Context::Call { block_height: 1 }, 32, &memory), Ok(Some([9u8; 32])));
    assert_eq!(current_contract(&Context::Script { block_height: 1 }, 32, &memory), Ok(None));
    assert_eq!(internal_contract(&Context::Call { block_height: 1 }, 32, &memory), Ok([9u8; 32]));
    assert_eq!(
        internal_contract(&Context::Script { block_height: 1 }, 32, &memory),
        Err(PanicReason::ExpectedInternalContext)
    );
    assert_eq!(
        internal_contract(&Context::Call { block_height: 1 }, 48, &memory),
        Err(PanicReason::UninitalizedMemoryAccess)
    );
    assert_eq!(tx_id(&memory), [3u8; 32]);
}

#[test]
fn instructions_are_fetched_from_code() {
    let mut memory = MemoryInstance::new();
    memory.grow_stack(16).unwrap();
    memory.write_noownerchecks(4u64, &[0x47, 0, 0, 0]).unwrap();
    let mut regs = [0u64; 64];
    regs[REG_IS] = 0;
    regs[REG_SSP] = 8;
    regs[REG_SP] = 16;
    regs[REG_HP] = VM_MAX_RAM;
    regs[REG_PC] = 4;
    let vm = Interpreter::new(regs, memory.clone(), Context::Script { block_height: 0 }, NoTrace);
    assert_eq!(vm.fetch_instruction(), Ok([0x47, 0, 0, 0]));

    regs[REG_PC] = 8;
    let vm = Interpreter::new(regs, memory.clone(), Context::Script { block_height: 0 }, NoTrace);
    let e = vm.fetch_instruction().unwrap_err();
    assert_eq!(e.reason, PanicReason::MemoryNotExecutable);
    assert_eq!(e.instruction, 0);

    regs[REG_PC] = 16;
    let vm = Interpreter::new(regs, memory, Context::Script { block_height: 0 }, NoTrace);
    let e = vm.fetch_instruction().unwrap_err();
    assert_eq!(e.reason, PanicReason::UninitalizedMemoryAccess);
}

#[test]
fn store_then_load_a_word() {
    let mut vm = vm_with_stack(32);
    assert_eq!(vm.store_word(8, 0x0102_0304_0506_0708, 1), Ok(()));
    assert_eq!(vm.registers()[REG_PC], 4);
    assert_eq!(vm.load_word(16, 8, 1), Ok(()));
    assert_eq!(vm.registers()[16], 0x0102_0304_0506_0708);
    assert_eq!(vm.load_byte(17, 16, 0), Ok(()));
    assert_eq!(vm.registers()[17], 0x01);
    assert_eq!(vm.load_word(3, 8, 1), Err(PanicOrBug::Panic(PanicReason::ReservedRegisterNotWritable)));
    assert_eq!(vm.registers()[REG_PC], 12);
}

#[test]
fn stores_need_ownership() {
    let vm = vm_with_stack(32);
    let mut regs = *vm.registers();
    regs[REG_SSP] = 16;
    let mut vm = Interpreter::new(regs, vm.memory().clone(), Context::Script { block_height: 0 }, NoTrace);
    // the stack between ssp and sp is owned, below ssp it is not
    assert_eq!(vm.store_byte(8, 1, 0), Err(PanicOrBug::Panic(PanicReason::MemoryOwnership)));
    // above sp nothing is allocated
    assert_eq!(vm.store_byte(40, 1, 0), Err(PanicOrBug::Panic(PanicReason::UninitalizedMemoryAccess)));
    assert_eq!(vm.store_byte(31, 0x1ff, 0), Ok(()));
    assert_eq!(vm.memory().read(31u64, 1u64), Ok(&[0xffu8][..]));
}

#[test]
fn memory_instructions_through_the_vm() {
    let mut vm = vm_with_stack(64);
    assert_eq!(vm.store_word(0, 0xaabb, 0), Ok(()));
    assert_eq!(vm.memcopy(32, 0, 8), Ok(()));
    assert_eq!(vm.memeq(18, 0, 32, 8), Ok(()));
    assert_eq!(vm.registers()[18], 1);
    assert_eq!(vm.memclear(0, 8), Ok(()));
    assert_eq!(vm.memeq(18, 0, 32, 8), Ok(()));
    assert_eq!(vm.registers()[18], 0);
    assert_eq!(vm.memcopy(0, 4, 8), Err(PanicOrBug::Panic(PanicReason::MemoryWriteOverlap)));
}

#[test]
fn registers_round_trip_through_the_stack() {
    let vm = vm_with_stack(0);
    let mut regs = *vm.registers();
    regs[16] = 11;
    regs[18] = 22;
    let mut vm2 = Interpreter::new(regs, vm.memory().clone(), Context::Script { block_height: 0 }, NoTrace);
    assert_eq!(vm2.push_selected_registers(ProgramRegistersSegment::Low, 0b101), Ok(()));
    assert_eq!(vm2.registers()[REG_SP], 16);
    let mut cleared = *vm2.registers();
    cleared[16] = 0;
    cleared[18] = 0;
    let mut vm3 = Interpreter::new(cleared, vm2.memory().clone(), Context::Script { block_height: 0 }, NoTrace);
    assert_eq!(vm3.pop_selected_registers(ProgramRegistersSegment::Low, 0b101), Ok(()));
    assert_eq!(vm3.registers()[16], 11);
    assert_eq!(vm3.registers()[18], 22);
    assert_eq!(vm3.registers()[REG_SP], 0);
}

#[test]
fn allocation_moves_the_heap_pointer() {
    let mut vm = vm_with_stack(16);
    assert_eq!(vm.allocate(32), Ok(()));
    assert_eq!(vm.registers()[REG_HP], VM_MAX_RAM - 32);
    assert_eq!(vm.memory().hp(), (VM_MAX_RAM - 32) as usize);
    assert_eq!(vm.allocate(VM_MAX_RAM), Err(PanicOrBug::Panic(PanicReason::MemoryOverflow)));
    assert_eq!(vm.allocate(VM_MAX_RAM - 40), Err(PanicOrBug::Panic(PanicReason::MemoryGrowthOverlap)));
    assert_eq!(vm.registers()[REG_HP], VM_MAX_RAM - 32);
}

#[test]
fn ownership_follows_the_frames() {
    let mut vm = vm_with_stack(16);
    let o = vm.ownership_registers();
    assert_eq!((o.sp, o.ssp, o.hp, o.prev_hp), (16, 0, VM_MAX_RAM, VM_MAX_RAM));
    let mut saved = [0u64; 64];
    saved[REG_HP] = 5000;
    vm.push_frame(CallFrame::new([0; 32], [0; 32], saved, 0, 0, 0));
    assert_eq!(vm.ownership_registers().prev_hp, 5000);
}

#[test]
fn trace_state_can_be_replaced() {
    let vm = vm_with_stack(0);
    let vm = vm.with_trace_hooks(5u32);
    assert_eq!(*vm.trace(), 5);
    let mut vm = vm;
    *vm.trace_mut() = 6;
    assert_eq!(*vm.trace(), 6);
    assert!(!vm.is_predicate());
}

#[test]
fn compiled_blocks_start_inside_the_code() {
    let mut regs = [0u64; 64];
    regs[REG_IS] = 8;
    regs[REG_SSP] = 4000;
    regs[REG_PC] = 16;
    let vm = Interpreter::new(regs, MemoryInstance::new(), Context::NotInitialized, NoTrace);
    assert_eq!(vm.jit_bounds(), Some((16, 1024)));
    regs[REG_PC] = 3998;
    let vm = Interpreter::new(regs, MemoryInstance::new(), Context::NotInitialized, NoTrace);
    assert_eq!(vm.jit_bounds(), None);
    regs[REG_PC] = 3900;
    let vm = Interpreter::new(regs, MemoryInstance::new(), Context::NotInitialized, NoTrace);
    assert_eq!(vm.jit_bounds(), Some((3900, 100)));
    regs[REG_PC] = 4;
    let vm = Interpreter::new(regs, MemoryInstance::new(), Context::NotInitialized, NoTrace);
    assert_eq!(vm.jit_bounds(), None);
}

#[test]
fn call_frames_take_padded_code() {
    assert_eq!(call_frame_size(0), Ok((0, 600)));
    assert_eq!(call_frame_size(13), Ok((16, 616)));
    assert_eq!(call_frame_size(u64::MAX), Err(PanicOrBug::Panic(PanicReason::MemoryOverflow)));
    assert_eq!(call_frame_size(u64::MAX - 7), Err(PanicOrBug::Bug(BugVariant::CodeSizeOverflow)));
}

#[test]
fn calls_read_parameters_and_enter_a_frame() {
    let mut vm = vm_with_stack(200);
    vm.set_gas(1000);
    let mut memory = vm.memory().clone();
    let mut params = vec![7u8; 32];
    params.extend_from_slice(&5u64.to_be_bytes());
    params.extend_from_slice(&6u64.to_be_bytes());
    memory.write_noownerchecks(0u64, &params).unwrap();
    memory.write_noownerchecks(100u64, &[9u8; 32]).unwrap();
    let mut regs = *vm.registers();
    regs[20] = 0;
    regs[21] = 50;
    regs[22] = 100;
    regs[23] = 300;
    regs[REG_CGAS] = 1000;
    regs[REG_GGAS] = 1000;
    let mut vm = Interpreter::new(regs, memory, Context::Script { block_height: 7 }, NoTrace);
    let req = vm.call_request(20, 21, 22, 23, 10).unwrap();
    assert_eq!(vm.registers()[REG_CGAS], 990);
    assert_eq!(req.to, [7u8; 32]);
    assert_eq!((req.a, req.b, req.coins, req.gas), (5, 6, 50, 300));
    assert_eq!(req.asset_id, [9u8; 32]);
    assert_eq!(req.source, None);
    let code = [0xabu8; 13];
    assert_eq!(vm.prepare_call(&req, &code), Ok(300));
    let regs = vm.registers();
    assert_eq!(regs[REG_FP], 200);
    assert_eq!(regs[REG_SP], 816);
    assert_eq!(regs[REG_SSP], 816);
    assert_eq!(regs[REG_PC], 800);
    assert_eq!(regs[REG_IS], 800);
    assert_eq!(regs[REG_CGAS], 300);
    assert_eq!(regs[REG_FLAG], 0);
    assert_eq!(regs[11], 50);
    assert_eq!(vm.context(), &Context::Call { block_height: 7 });
    assert_eq!(vm.memory().stack_raw().len(), 816);
    // the frame and the padded code are in memory
    assert_eq!(vm.memory().read(200u64, 32u64), Ok(&[7u8; 32][..]));
    assert_eq!(vm.memory().read(232u64, 32u64), Ok(&[9u8; 32][..]));
    assert_eq!(vm.memory().read(264u64 + 8 * REG_CGAS as u64, 8u64), Ok(&690u64.to_be_bytes()[..]));
    assert_eq!(vm.memory().read(776u64, 8u64), Ok(&16u64.to_be_bytes()[..]));
    assert_eq!(vm.memory().read(784u64, 8u64), Ok(&5u64.to_be_bytes()[..]));
    assert_eq!(vm.memory().read(792u64, 8u64), Ok(&6u64.to_be_bytes()[..]));
    assert_eq!(vm.memory().read(800u64, 13u64), Ok(&code[..]));
    assert_eq!(vm.memory().read(813u64, 3u64), Ok(&[0u8; 3][..]));
    // the called contract is the running one, and a call receipt was added
    assert_eq!(current_contract(vm.context(), 200, vm.memory()), Ok(Some([7u8; 32])));
    assert_eq!(
        vm.receipts(),
        &[Receipt::Call {
            id: [0; 32],
            to: [7; 32],
            amount: 50,
            asset_id: [9; 32],
            gas: 300,
            param1: 5,
            param2: 6,
            pc: 800,
            is: 800
        }][..]
    );
    // returning gives the caller its registers back, with the unspent gas
    assert_eq!(vm.return_from_context_registers(), Ok(()));
    let regs = vm.registers();
    assert_eq!((regs[REG_FP], regs[REG_SP], regs[REG_SSP], regs[REG_PC]), (0, 200, 0, 0));
    assert_eq!(regs[REG_CGAS], 990);
    assert_eq!(vm.context(), &Context::Script { block_height: 7 });
}

#[test]
fn calls_fail_on_unreadable_parameters_and_full_stacks() {
    let mut vm = vm_with_stack(10);
    vm.set_gas(1000);
    let mut regs = *vm.registers();
    regs[20] = 0;
    regs[22] = 0;
    let mut vm = Interpreter::new(regs, vm.memory().clone(), Context::Script { block_height: 1 }, NoTrace);
    assert_eq!(
        vm.call_request(20, 21, 22, 23, 10).unwrap_err(),
        PanicOrBug::Panic(PanicReason::UninitalizedMemoryAccess)
    );
    let mut regs = *vm.registers();
    regs[REG_SP] = VM_MAX_RAM - 100;
    regs[REG_CGAS] = 40;
    let mut vm = Interpreter::new(regs, MemoryInstance::new(), Context::Script { block_height: 1 }, NoTrace);
    let req = fuel_vm::interpreter::CallRequest {
        to: [0; 32], a: 0, b: 0, asset_id: [0; 32], coins: 0, gas: 10, source: None,
    };
    assert_eq!(vm.prepare_call(&req, &[]), Err(PanicOrBug::Panic(PanicReason::MemoryOverflow)));
    assert!(vm.receipts().is_empty());
    assert_eq!(vm.registers()[REG_CGAS], 30);
}
