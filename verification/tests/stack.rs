use fuel_vm::consts::{MEM_SIZE, VM_MAX_RAM};
use fuel_vm::error::{PanicOrBug, PanicReason};
use fuel_vm::memory::MemoryInstance;
use fuel_vm::memory_ops::{pop_selected_registers, push_selected_registers, ProgramRegisters, ProgramRegistersSegment};

#[test]
fn test_push_stack_overflow() {
    let mut memory = MemoryInstance::from_stack(vec![1u8; MEM_SIZE]);
    let mut pc = 0;
    let mut sp = 10;
    let hp = 14;

    let regs = ProgramRegisters([0; 48]);

    let result = push_selected_registers(&mut memory, &mut sp, 10, hp, &mut pc, &regs, ProgramRegistersSegment::Low, 1);

    assert_eq!(result, Err(PanicOrBug::Panic(PanicReason::MemoryGrowthOverlap)));
}

#[test]
fn test_pop_from_empty_stack() {
    let mut memory = MemoryInstance::from_stack(vec![1u8; MEM_SIZE]);
    let mut pc = 0;
    let mut sp = 32;
    let ssp = 16;

    let mut regs = ProgramRegisters([0; 48]);

    let result = pop_selected_registers(
        &mut memory,
        &mut sp,
        ssp,
        VM_MAX_RAM,
        &mut pc,
        &mut regs,
        ProgramRegistersSegment::Low,
        0b111,
    );

    assert_eq!(result, Err(PanicOrBug::Panic(PanicReason::MemoryOverflow)));
}

#[test]
fn test_pop_sp_overflow() {
    let mut memory = MemoryInstance::from_stack(vec![1u8; MEM_SIZE]);
    let mut pc = 0;
    let mut sp = 16;
    let ssp = 0;

    let mut regs = ProgramRegisters([0; 48]);

    let result = pop_selected_registers(
        &mut memory,
        &mut sp,
        ssp,
        VM_MAX_RAM,
        &mut pc,
        &mut regs,
        ProgramRegistersSegment::Low,
        0b111,
    );

    assert_eq!(result, Err(PanicOrBug::Panic(PanicReason::MemoryOverflow)));
}

#[test]
fn push_then_pop_restores_selected_registers() {
    let mut memory = MemoryInstance::new();
    let mut pc = 0;
    let mut sp = 0;
    let mut saved = [0u64; 48];
    for (i, r) in saved.iter_mut().enumerate() {
        *r = 1000 + i as u64;
    }
    let regs = ProgramRegisters(saved);
    let mask = 0b1010_0000_0000_0000_0000_0101u32;
    push_selected_registers(&mut memory, &mut sp, 0, VM_MAX_RAM, &mut pc, &regs, ProgramRegistersSegment::High, mask)
        .unwrap();
    assert_eq!(sp, 32);
    assert_eq!(pc, 4);
    assert_eq!(memory.read(0u64, 8u64).unwrap(), (1024u64).to_be_bytes());

    let mut current = ProgramRegisters([7u64; 48]);
    pop_selected_registers(&mut memory, &mut sp, 0, VM_MAX_RAM, &mut pc, &mut current, ProgramRegistersSegment::High, mask)
        .unwrap();
    assert_eq!(sp, 0);
    assert_eq!(pc, 8);
    for k in 0..48 {
        let selected = k >= 24 && (mask >> (k - 24)) & 1 == 1;
        assert_eq!(current.0[k], if selected { saved[k] } else { 7 });
    }
}
