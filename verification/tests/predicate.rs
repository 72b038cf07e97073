use fuel_vm::error::{BugVariant, PanicOrBug, PanicReason};
use fuel_vm::predicate::{check_predicate, predicate_start, PredicateAction, PredicateVerificationFailed};
use fuel_vm::state::ProgramState;
use fuel_types::ContractId;
use fuel_vm::predicate::RuntimePredicate;
use fuel_vm::profiler::InstructionLocation;
use fuel_vm::storage::{
    empty_predicate_storage, ContractsStateData, EmptyStorage, IncreaseStorageKey, KeyspaceExhausted, PredicateStorage,
};

#[test]
fn predicate_ranges() {
    let p = RuntimePredicate::from_predicate_offset(Some((10, 20)), 100, 3).unwrap();
    assert_eq!(p.idx(), 3);
    assert_eq!(p.program().start(), 110);
    assert_eq!(p.program().len(), 20);
    assert_eq!(RuntimePredicate::from_predicate_offset(None, 100, 3), None);
    let p = RuntimePredicate::from_predicate_offset(Some((usize::MAX - 1, 5)), 10, 0).unwrap();
    assert_eq!(p.program().start(), usize::MAX);
    assert_eq!(p.program().end(), usize::MAX);
    let e = RuntimePredicate::empty();
    assert_eq!(e.idx(), 0);
    assert!(e.program().is_empty());
}

#[test]
fn state_slots_start_zeroed() {
    assert_eq!(ContractsStateData::zeroed().0, vec![0u8; 32]);
}

#[test]
fn predicate_storage_wraps() {
    let s = PredicateStorage::new(5u8);
    assert_eq!(*s.storage(), 5);
    let _: &EmptyStorage = empty_predicate_storage().storage();
}

#[test]
fn instruction_locations() {
    let id = ContractId::from([4u8; 32]);
    let l = InstructionLocation::new(Some(id), 12);
    assert_eq!(l.context(), Some(id));
    assert_eq!(l.offset(), 12);
    assert_eq!(InstructionLocation::new(None, 0).context(), None);
}

#[test]
fn storage_keys_increase_with_carry() {
    let mut k = [0u8; 32];
    k[31] = 0xff;
    k[30] = 0xff;
    k[29] = 7;
    assert_eq!(k.increase(), Ok(()));
    let mut expected = [0u8; 32];
    expected[29] = 8;
    assert_eq!(k, expected);
    let mut zero = [0u8; 32];
    assert_eq!(zero.increase(), Ok(()));
    assert_eq!(zero[31], 1);
    let mut max = [0xffu8; 32];
    assert_eq!(max.increase(), Err(KeyspaceExhausted));
    assert_eq!(max, [0xffu8; 32]);
}

#[test]
fn predicate_owner_and_gas_at_start() {
    assert_eq!(
        predicate_start(PredicateAction::Verifying, 2, false, Some(10)),
        Err(PredicateVerificationFailed::InvalidOwner { index: 2 })
    );
    assert_eq!(predicate_start(PredicateAction::Verifying, 2, true, Some(10)), Ok(10));
    assert_eq!(predicate_start(PredicateAction::Estimating { available_gas: 50 }, 2, false, None), Ok(50));
}

#[test]
fn predicate_verdicts() {
    let v = PredicateAction::Verifying;
    assert_eq!(check_predicate(v, 1, 100, Ok(()), Ok(ProgramState::Return(1)), 0), (100, Ok(())));
    assert_eq!(
        check_predicate(v, 1, 100, Ok(()), Ok(ProgramState::Return(1)), 5),
        (95, Err(PredicateVerificationFailed::GasMismatch { index: 1 }))
    );
    assert_eq!(
        check_predicate(v, 1, 100, Ok(()), Ok(ProgramState::Return(0)), 0),
        (100, Err(PredicateVerificationFailed::False { index: 1 }))
    );
    let oog = PanicOrBug::Panic(PanicReason::OutOfGas);
    assert_eq!(
        check_predicate(v, 1, 100, Ok(()), Err(oog), 0),
        (100, Err(PredicateVerificationFailed::Interpreter { index: 1, error: oog }))
    );
    assert_eq!(
        check_predicate(v, 1, 100, Err(oog), Ok(ProgramState::Return(1)), 0),
        (0, Err(PredicateVerificationFailed::Interpreter { index: 1, error: oog }))
    );
    assert_eq!(
        check_predicate(v, 1, 100, Ok(()), Ok(ProgramState::Return(1)), 101),
        (0, Err(PredicateVerificationFailed::Bug(BugVariant::GlobalGasUnderflow)))
    );
    let e = PredicateAction::Estimating { available_gas: 100 };
    assert_eq!(check_predicate(e, 1, 100, Ok(()), Ok(ProgramState::Return(0)), 30), (70, Ok(())));
}
