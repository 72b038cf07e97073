use fuel_vm::consts::{MEM_SIZE, VM_MAX_RAM};
use fuel_vm::error::PanicReason;
use fuel_vm::memory::{get_changes, MemoryInstance, MemorySliceChange};
use fuel_vm::ownership::OwnershipRegisters;

#[test]
fn grow_heap_over_old_stack() {
    let mut memory = MemoryInstance::new();

    let sp = VM_MAX_RAM - 100;
    let mut hp = VM_MAX_RAM;

    memory.grow_stack(sp).expect("Can grow stack");

    memory.write_noownerchecks(0u64, &vec![1u8; sp as usize]).unwrap();

    // Now extend heap to the same location, so that whole memory is allocated
    memory.grow_heap_by(sp, &mut hp, 100).expect("Can grow heap");

    memory.write_noownerchecks(hp, &vec![2u8; 100]).unwrap();

    // Now try to extend heap over old stack. This should fail
    memory.grow_heap_by(sp, &mut hp, 1).expect_err("Cannot grow heap over stack");

    // Check that memory is still intact
    assert_eq!(memory.read(0u64, hp).unwrap().to_vec(), vec![1u8; hp as usize]);
    assert_eq!(memory.read(hp, 100u64).unwrap().to_vec(), vec![2u8; 100]);

    // Now extend heap over stack after (conceptually) shrinking it
    let sp = VM_MAX_RAM - 200;
    memory.grow_heap_by(sp, &mut hp, 100).expect("Should be able to grow heap");

    // Check that memory is still intact for the old stack
    assert_eq!(memory.read(0u64, hp).unwrap().to_vec(), vec![1u8; hp as usize]);

    // New memory should be zeroed
    assert_eq!(memory.read(hp, 100u64).unwrap().to_vec(), vec![0u8; 100]);

    // And the rest should be intact
    assert_eq!(memory.read(VM_MAX_RAM - 100, 100u64).unwrap(), vec![2u8; 100]);
}

#[test]
fn reads_cannot_cross_from_stack_to_heap() {
    let mut memory = MemoryInstance::new();

    // Allocate the whole stack
    let sp = VM_MAX_RAM - 100;
    let mut hp = VM_MAX_RAM;
    memory.grow_stack(sp).expect("Can grow stack");
    memory.grow_heap_by(sp, &mut hp, 100).expect("Can grow heap");
    assert_eq!(hp, VM_MAX_RAM - 100);

    // Attempt cross-partition operations
    memory.read(sp - 2, 4u64).expect_err("Cannot read across stack/heap boundary");
    memory
        .write_noownerchecks(sp - 2, &[0u8; 4])
        .expect_err("Cannot write across stack/heap boundary");
}

#[test]
fn reading_from_internally_allocated_heap_below_hp_fails() {
    let mut memory = MemoryInstance::new();

    // Allocate small heap
    let mut hp = VM_MAX_RAM;
    memory.grow_heap_by(0, &mut hp, 10).expect("Can grow heap");

    // Attempt to read the heap that's now allocated internally but is not accessible
    memory
        .write_noownerchecks(VM_MAX_RAM - 16, &[0u8; 16])
        .expect_err("Cannot read across stack/heap boundary");
}

#[test]
fn memory_reset() {
    let mut memory = MemoryInstance::new();

    memory.grow_stack(10).unwrap();
    memory.read(0u64, 1u64).expect("Stack should be nonempty");
    memory.reset();
    memory.read(0u64, 1u64).expect_err("Stack should be empty");

    let mut hp = VM_MAX_RAM;
    memory.grow_heap_by(0, &mut hp, 10).unwrap();
    assert_eq!(hp, VM_MAX_RAM - 10);
    memory.read(VM_MAX_RAM - 1, 1u64).expect("Heap should be nonempty");
    memory.reset();
    memory.read(VM_MAX_RAM - 1, 1u64).expect_err("Heap should be empty");
    assert_eq!(memory.hp(), MEM_SIZE);
}

#[test]
fn verify_reports_overflow_and_uninitialized_access() {
    let mut memory = MemoryInstance::new();
    memory.grow_stack(16).unwrap();
    assert_eq!(memory.verify(0u64, 16u64).unwrap().usizes(), 0..16);
    assert_eq!(memory.verify(0u64, 17u64), Err(PanicReason::UninitalizedMemoryAccess));
    assert_eq!(memory.verify(VM_MAX_RAM, 1u64), Err(PanicReason::MemoryOverflow));
    assert_eq!(memory.verify(u64::MAX, 0u64), Err(PanicReason::MemoryOverflow));
    assert_eq!(memory.grow_stack(VM_MAX_RAM + 1), Err(PanicReason::MemoryOverflow));
}

#[test]
fn heap_growth_errors() {
    let mut memory = MemoryInstance::new();
    let mut hp = VM_MAX_RAM;
    assert_eq!(memory.grow_heap_by(0, &mut hp, VM_MAX_RAM + 1), Err(PanicReason::MemoryOverflow));
    assert_eq!(memory.grow_heap_by(VM_MAX_RAM - 5, &mut hp, 10), Err(PanicReason::MemoryGrowthOverlap));
    assert_eq!(hp, VM_MAX_RAM);
    memory.grow_stack(100).unwrap();
    let mut hp = VM_MAX_RAM;
    memory.grow_heap_by(0, &mut hp, 300).unwrap();
    assert_eq!(memory.heap_raw().len(), 512);
    assert_eq!(memory.stack_raw().len(), 100);
    assert_eq!(memory.grow_stack(VM_MAX_RAM - 200), Err(PanicReason::MemoryGrowthOverlap));
}

#[test]
fn writes_check_ownership() {
    let mut memory = MemoryInstance::new();
    memory.grow_stack(64).unwrap();
    let owner = OwnershipRegisters::only_allow_stack_write(32, 16, VM_MAX_RAM);
    assert_eq!(memory.write_bytes(owner, 16u64, [1u8, 2, 3, 4]), Ok(()));
    assert_eq!(memory.read_bytes::<u64, 4>(16u64), Ok([1u8, 2, 3, 4]));
    assert_eq!(memory.write_bytes(owner, 30u64, [9u8; 4]), Err(PanicReason::MemoryOwnership));
    assert_eq!(memory.write_bytes(owner, 0u64, [9u8; 4]), Err(PanicReason::MemoryOwnership));
    assert_eq!(memory.read_bytes::<u64, 4>(0u64), Ok([0u8; 4]));
}

#[test]
fn memcopy_copies_and_refuses_overlap() {
    let mut memory = MemoryInstance::new();
    memory.grow_stack(64).unwrap();
    let owner = OwnershipRegisters::test_full_stack();
    memory.write_bytes(owner, 0u64, [1u8, 2, 3, 4]).unwrap();
    assert_eq!(memory.memcopy(8, 0, 4, owner), Ok(()));
    assert_eq!(memory.read_bytes::<u64, 4>(8u64), Ok([1u8, 2, 3, 4]));
    assert_eq!(memory.memcopy(2, 0, 4, owner), Err(PanicReason::MemoryWriteOverlap));
    let stack_only = OwnershipRegisters::only_allow_stack_write(8, 4, VM_MAX_RAM);
    assert_eq!(memory.memcopy(16, 0, 4, stack_only), Err(PanicReason::MemoryOwnership));
}

#[test]
fn get_changes_finds_maximal_differing_runs() {
    let latest = [0u8, 1, 2, 3, 4, 5, 6, 7];
    let desired = [0u8, 9, 9, 3, 4, 9, 6, 9];
    let changes = get_changes(&latest, &desired, 100);
    assert_eq!(
        changes,
        vec![
            MemorySliceChange { global_start: 101, data: vec![9, 9] },
            MemorySliceChange { global_start: 105, data: vec![9] },
            MemorySliceChange { global_start: 107, data: vec![9] },
        ]
    );
    assert!(get_changes(&latest, &latest, 0).is_empty());
}

#[test]
fn rollback_restores_the_desired_memory() {
    let owner = OwnershipRegisters::from_registers(VM_MAX_RAM - 256, 0, VM_MAX_RAM - 256, VM_MAX_RAM);
    let heap_owner = OwnershipRegisters::from_registers(64, 0, VM_MAX_RAM - 256, VM_MAX_RAM);
    let mut desired = MemoryInstance::new();
    let mut hp = VM_MAX_RAM;
    desired.grow_stack(64).unwrap();
    desired.grow_heap_by(64, &mut hp, 256).unwrap();
    desired.write_bytes(owner, 0u64, [1u8, 2, 3, 4]).unwrap();
    desired.write_bytes(heap_owner, VM_MAX_RAM - 4, [5u8, 6, 7, 8]).unwrap();

    let mut latest = desired.clone();
    assert!(latest.collect_rollback_data(&desired).is_none());
    latest.grow_stack(128).unwrap();
    latest.write_bytes(owner, 2u64, [9u8; 8]).unwrap();
    latest.write_bytes(heap_owner, VM_MAX_RAM - 8, [7u8; 8]).unwrap();
    assert!(!latest.eq(&desired));

    let data = latest.collect_rollback_data(&desired).expect("memories differ");
    latest.rollback(&data);
    assert!(latest.eq(&desired));
    assert_eq!(latest.read(0u64, 64u64).unwrap(), desired.read(0u64, 64u64).unwrap());
    assert_eq!(latest.read(VM_MAX_RAM - 256, 256u64).unwrap(), desired.read(VM_MAX_RAM - 256, 256u64).unwrap());
    assert_eq!(latest.read(0u64, 65u64), Err(PanicReason::UninitalizedMemoryAccess));
}

#[test]
fn make_equal_copies_everything() {
    let mut a = MemoryInstance::new();
    let mut hp = VM_MAX_RAM;
    a.grow_stack(8).unwrap();
    a.grow_heap_by(8, &mut hp, 16).unwrap();
    a.write_noownerchecks(0u64, &[3u8; 8]).unwrap();
    let mut b = MemoryInstance::from_stack(vec![1u8; 100]);
    b.make_equal(&a);
    assert!(b.eq(&a));
    assert_eq!(b.heap_raw(), a.heap_raw());
}

#[test]
fn fresh_heap_reads_zero() {
    let mut memory = MemoryInstance::new();
    let mut hp = VM_MAX_RAM;
    memory.grow_heap_by(0, &mut hp, 300).unwrap();
    assert!(memory.read(VM_MAX_RAM - 300, 300u64).unwrap().iter().all(|&b| b == 0));
}

#[test]
fn heap_growth_after_reset_reads_zero() {
    let mut memory = MemoryInstance::new();
    let mut hp = VM_MAX_RAM;
    memory.grow_heap_by(0, &mut hp, 10).unwrap();
    memory.write_noownerchecks(VM_MAX_RAM - 1, &[0xaa]).unwrap();
    memory.reset();
    // the buffer is reused and the new heap is zeroed
    let mut hp = VM_MAX_RAM;
    memory.grow_heap_by(0, &mut hp, 10).unwrap();
    assert_eq!(memory.read(VM_MAX_RAM - 1, 1u64), Ok(&[0u8][..]));
    memory.write_noownerchecks(VM_MAX_RAM - 1, &[0xaa]).unwrap();
    memory.reset();
    // the buffer is reallocated and the new heap is zeroed as well
    let mut hp = VM_MAX_RAM;
    memory.grow_heap_by(0, &mut hp, 300).unwrap();
    assert_eq!(memory.read(VM_MAX_RAM - 1, 1u64), Ok(&[0u8][..]));
}

#[test]
fn heap_reused_after_reset_is_zeroed() {
    let mut memory = MemoryInstance::new();
    let mut hp = VM_MAX_RAM;
    memory.grow_heap_by(0, &mut hp, 256).unwrap();
    memory.write_noownerchecks(VM_MAX_RAM - 256, &[0xaau8; 256]).unwrap();
    memory.reset();
    let mut hp = VM_MAX_RAM;
    assert_eq!(memory.grow_heap_by(0, &mut hp, 512), Ok(()));
    assert_eq!(hp, VM_MAX_RAM - 512);
    assert_eq!(memory.read(VM_MAX_RAM - 512, 512u64), Ok(&[0u8; 512][..]));
}

#[test]
fn constant_sized_checks() {
    let mut memory = MemoryInstance::new();
    memory.grow_stack(8).unwrap();
    assert_eq!(memory.verify_const::<u64, 8>(0).unwrap().usizes(), 0..8);
    assert_eq!(memory.verify_const::<u64, 9>(0), Err(PanicReason::UninitalizedMemoryAccess));
}

#[test]
fn default_memory_is_empty() {
    let memory = MemoryInstance::default();
    assert_eq!(memory.hp(), MEM_SIZE);
    assert!(memory.stack_raw().is_empty());
    assert!(memory.heap_raw().is_empty());
}

fn owner(stack: std::ops::Range<u64>, heap: std::ops::Range<u64>) -> OwnershipRegisters {
    OwnershipRegisters::from_registers(stack.end, stack.start, heap.start, heap.end)
}

#[test]
fn empty_memories_produces_empty_diff() {
    let memory1 = MemoryInstance::new();
    let memory2 = MemoryInstance::new();
    let diff = memory1.diff_patches(&memory2);
    assert!(diff.is_empty());
}

#[test]
fn stack_and_heap_produce_patches() {
    let all_memory_owned = owner(0..VM_MAX_RAM - 4, VM_MAX_RAM - 4..VM_MAX_RAM);
    let mut memory1 = MemoryInstance::new();
    let mut hp = VM_MAX_RAM;
    memory1.grow_stack(4).unwrap();
    memory1.grow_heap_by(4, &mut hp, 4).unwrap();
    let mut memory2 = memory1.clone();
    memory2.write_bytes(all_memory_owned, 0, [1, 2, 3, 4]).unwrap();
    memory2.write_bytes(all_memory_owned, VM_MAX_RAM - 4, [5, 6, 7, 8]).unwrap();
    let diff = memory1.diff_patches(&memory2);
    assert_eq!(
        diff,
        vec![
            MemorySliceChange { global_start: 0, data: vec![1, 2, 3, 4] },
            MemorySliceChange { global_start: MEM_SIZE - 4, data: vec![5, 6, 7, 8] },
        ]
    );
}

#[test]
fn overwriting_produces_patch() {
    let all_memory_owned = owner(0..VM_MAX_RAM, VM_MAX_RAM..VM_MAX_RAM);
    let mut memory1 = MemoryInstance::new();
    let mut hp = VM_MAX_RAM;
    memory1.grow_stack(4).unwrap();
    memory1.grow_heap_by(4, &mut hp, 4).unwrap();
    let mut memory2 = memory1.clone();
    memory2.write_bytes(all_memory_owned, 0, [1, 2, 3, 4]).unwrap();
    let diff1 = memory1.diff_patches(&memory2);
    let mut memory3 = memory2.clone();
    memory3.write_bytes(all_memory_owned, 0, [5, 6, 7, 8]).unwrap();
    let diff2 = memory2.diff_patches(&memory3);
    assert_eq!(diff1, vec![MemorySliceChange { global_start: 0, data: vec![1, 2, 3, 4] }]);
    assert_eq!(diff2, vec![MemorySliceChange { global_start: 0, data: vec![5, 6, 7, 8] }]);
}

#[test]
fn unchanged_write_doesnt_produce_patch() {
    let all_memory_owned = owner(0..VM_MAX_RAM, VM_MAX_RAM..VM_MAX_RAM);
    let mut memory1 = MemoryInstance::new();
    memory1.grow_stack(8).unwrap();
    let mut memory2 = memory1.clone();
    memory2.write_bytes(all_memory_owned, 0, [1, 2, 3, 4]).unwrap();
    let diff1 = memory1.diff_patches(&memory2);
    let mut memory3 = memory2.clone();
    memory3.write_bytes(all_memory_owned, 0, [1, 2, 3, 4]).unwrap();
    let diff2 = memory2.diff_patches(&memory3);
    assert_eq!(diff1, vec![MemorySliceChange { global_start: 0, data: vec![1, 2, 3, 4] }]);
    assert!(diff2.is_empty());
}

#[test]
fn overlapping_overwrite_produces_patch() {
    let all_memory_owned = owner(0..VM_MAX_RAM, VM_MAX_RAM..VM_MAX_RAM);
    let mut memory1 = MemoryInstance::new();
    memory1.grow_stack(8).unwrap();
    memory1.write_bytes(all_memory_owned, 0, [1, 2, 3, 4]).unwrap();
    let mut memory2 = memory1.clone();
    memory2.write_bytes(all_memory_owned, 2, [5, 6, 7, 8]).unwrap();
    let diff = memory1.diff_patches(&memory2);
    assert_eq!(diff, vec![MemorySliceChange { global_start: 2, data: vec![5, 6, 7, 8] }]);
}

#[test]
fn stack_retraction_overwrite_produces_correct_patch() {
    let split_change = 10;
    let split_a = VM_MAX_RAM / 2 + split_change;
    let split_b = VM_MAX_RAM / 2;
    let split_a_owner = owner(0..split_a, split_a..VM_MAX_RAM);
    let split_b_owner = owner(0..split_b, split_b..VM_MAX_RAM);

    let mut memory1 = MemoryInstance::new();
    let mut hp = VM_MAX_RAM;
    memory1.grow_stack(split_a).unwrap();
    memory1.grow_heap_by(split_a, &mut hp, VM_MAX_RAM - split_a).unwrap();
    memory1.write(split_a_owner, 0u64, &vec![0x01u8; split_a as usize]).unwrap();
    memory1.write(split_a_owner, split_a, &vec![0x02u8; (VM_MAX_RAM - split_a) as usize]).unwrap();

    let diff = MemoryInstance::new().diff_patches(&memory1);
    assert_eq!(diff.len(), 1);
    assert_eq!(diff[0].global_start, 0);
    assert_eq!(diff[0].data.len(), MEM_SIZE);
    assert!(diff[0].data[..split_a as usize].iter().all(|&x| x == 0x01));
    assert!(diff[0].data[split_a as usize..].iter().all(|&x| x == 0x02));

    let mut memory2 = memory1.clone();
    memory2.grow_heap_by(split_b, &mut hp, split_change).unwrap();
    let diff = memory1.diff_patches(&memory2);
    assert_eq!(diff, vec![MemorySliceChange { global_start: split_b as usize, data: vec![0; split_change as usize] }]);

    memory2.write(split_b_owner, split_b, &vec![0x03u8; (VM_MAX_RAM - split_b) as usize]).unwrap();
    let diff = memory1.diff_patches(&memory2);
    assert_eq!(diff.len(), 1);
    assert_eq!(diff[0].global_start, split_b as usize);
    assert_eq!(diff[0].data.len(), MEM_SIZE - split_b as usize);
    assert!(diff[0].data.iter().all(|&x| x == 0x03));
}
