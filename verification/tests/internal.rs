use fuel_vm::error::{PanicOrBug, PanicReason};
use fuel_vm::internal::{clear_err, inc_pc, set_err, set_flag};

#[test]
fn test_inc_pc_errors_on_of() {
    let mut pc = u64::MAX - 4;
    inc_pc(&mut pc).unwrap();
    inc_pc(&mut pc).expect_err("Expected overflow error");
}

#[test]
fn inc_pc_moves_one_instruction() {
    let mut pc = 40;
    inc_pc(&mut pc).unwrap();
    assert_eq!(pc, 44);
}

#[test]
fn set_flag_accepts_known_flags_only() {
    let mut flag = 0;
    let mut pc = 0;
    assert_eq!(set_flag(&mut flag, &mut pc, 3), Ok(()));
    assert_eq!((flag, pc), (3, 4));
    assert_eq!(set_flag(&mut flag, &mut pc, 4), Err(PanicOrBug::Panic(PanicReason::InvalidFlags)));
    assert_eq!((flag, pc), (3, 4));
    assert_eq!(set_flag(&mut flag, &mut pc, 1), Ok(()));
    assert_eq!((flag, pc), (1, 8));
}

#[test]
fn err_register_set_and_cleared() {
    let mut err = 7;
    set_err(&mut err);
    assert_eq!(err, 1);
    clear_err(&mut err);
    assert_eq!(err, 0);
}
