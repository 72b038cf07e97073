use fuel_vm::consts::VM_MAX_RAM;
use fuel_vm::error::{PanicOrBug, PanicReason};
use fuel_vm::flow::{JumpArgs, JumpMode};

fn jump(mode: JumpMode, condition: bool, is: u64, mut pc: u64, j: u64, f: u64) -> Result<u64, PanicOrBug> {
    JumpArgs::new(mode)
        .with_condition(condition)
        .to_address(j)
        .plus_fixed(f)
        .jump(is, &mut pc)
        .map(|_| pc)
}

const OVERFLOW: Result<u64, PanicOrBug> = Err(PanicOrBug::Panic(PanicReason::MemoryOverflow));

#[test]
fn assign_jumps() {
    assert_eq!(jump(JumpMode::Assign, true, 0, 0, 0, 0), Ok(0));
    assert_eq!(jump(JumpMode::Assign, true, 0, 10, 0, 0), Ok(0));
    assert_eq!(jump(JumpMode::Assign, true, 0, 10, 0, 4), Ok(16));
    assert_eq!(jump(JumpMode::Assign, true, 0, 10, 8, 0), Ok(8));
    assert_eq!(jump(JumpMode::Assign, true, 0, 10, 8, 4), Ok(24));
    assert_eq!(jump(JumpMode::Assign, true, 1234, 10, 0, 4), Ok(16));
    assert_eq!(jump(JumpMode::Assign, true, 0, 0, VM_MAX_RAM + 1, 0), OVERFLOW);
    assert_eq!(jump(JumpMode::Assign, true, 0, 0, 0, VM_MAX_RAM), OVERFLOW);
}

#[test]
fn absolute_and_relative_jumps() {
    assert_eq!(jump(JumpMode::RelativeIS, true, 0, 0, 0, 0), Ok(0));
    assert_eq!(jump(JumpMode::RelativeIS, true, 0, 0, 20, 0), Ok(80));
    assert_eq!(jump(JumpMode::RelativeIS, true, 0, 80, 10, 0), Ok(40));
    assert_eq!(jump(JumpMode::RelativeIS, true, 0, 40, VM_MAX_RAM, 0), OVERFLOW);
    assert_eq!(jump(JumpMode::RelativeForwards, true, 0, 0, 20, 0), Ok(84));
    assert_eq!(jump(JumpMode::RelativeForwards, true, 0, 80, 10, 0), Ok(124));
    assert_eq!(jump(JumpMode::RelativeForwards, true, 0, 40, VM_MAX_RAM, 0), OVERFLOW);
    assert_eq!(jump(JumpMode::RelativeBackwards, true, 0, 20, 4, 0), Ok(0));
    assert_eq!(jump(JumpMode::RelativeBackwards, true, 0, 80, 10, 0), Ok(36));
    assert_eq!(jump(JumpMode::RelativeBackwards, true, 0, 0, 0, 0), OVERFLOW);
    assert_eq!(jump(JumpMode::RelativeBackwards, true, 0, 0, 1, 0), OVERFLOW);
    assert_eq!(jump(JumpMode::RelativeBackwards, true, 0, 20, 50, 0), OVERFLOW);
}

#[test]
fn not_performed_conditional_jumps() {
    assert_eq!(jump(JumpMode::RelativeIS, false, 0, 0, 100, 0), Ok(4));
    assert_eq!(jump(JumpMode::RelativeForwards, false, 0, 1000, 100, 0), Ok(1004));
    assert_eq!(jump(JumpMode::RelativeBackwards, false, 0, 1000, 100, 0), Ok(1004));
    assert_eq!(jump(JumpMode::RelativeIS, false, 0, 40, VM_MAX_RAM, 0), Ok(44));
    assert_eq!(jump(JumpMode::RelativeForwards, false, 0, 40, VM_MAX_RAM, 0), Ok(44));
    assert_eq!(jump(JumpMode::RelativeBackwards, false, 0, 40, 100, 0), Ok(44));
}
