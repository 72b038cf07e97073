use fuel_vm::run::{program_start, run, run_state, RunAction, TransactionKind};
use fuel_vm::error::{BugVariant, PanicOrBug, PanicReason};
use fuel_vm::run::{after_instruction, script_outcome, RunStep, ScriptExecutionResult};
use fuel_vm::state::{Breakpoint, DebugEval, ExecuteState, ProgramState};

#[test]
fn returns_inside_calls_go_on() {
    assert_eq!(after_instruction(true, Ok(ExecuteState::Return(3))), RunStep::Continue);
    assert_eq!(after_instruction(true, Ok(ExecuteState::ReturnData([1; 32]))), RunStep::Continue);
    assert_eq!(
        after_instruction(false, Ok(ExecuteState::Return(3))),
        RunStep::Finish(ScriptExecutionResult::Success, ProgramState::Return(3))
    );
    assert_eq!(
        after_instruction(false, Ok(ExecuteState::ReturnData([1; 32]))),
        RunStep::Finish(ScriptExecutionResult::Success, ProgramState::ReturnData([1; 32]))
    );
}

#[test]
fn reverts_panics_and_bugs_end_the_script() {
    assert_eq!(
        after_instruction(true, Ok(ExecuteState::Revert(9))),
        RunStep::Finish(ScriptExecutionResult::Revert, ProgramState::Revert(9))
    );
    let step = after_instruction(false, Err(PanicOrBug::Panic(PanicReason::OutOfGas)));
    assert_eq!(step, RunStep::Panic(PanicReason::OutOfGas));
    assert_eq!(script_outcome(step), Some((ScriptExecutionResult::Panic, ProgramState::Revert(0))));
    let step = after_instruction(false, Err(PanicOrBug::Bug(BugVariant::ContextGasOverflow)));
    assert_eq!(step, RunStep::Fail(BugVariant::ContextGasOverflow));
    assert_eq!(script_outcome(step), None);
}

#[test]
fn proceeding_and_debug_events() {
    assert_eq!(after_instruction(false, Ok(ExecuteState::Proceed)), RunStep::Continue);
    let d = DebugEval::Breakpoint(Breakpoint::script(1));
    assert_eq!(after_instruction(false, Ok(ExecuteState::DebugEvent(d))), RunStep::Debug(d));
    assert_eq!(script_outcome(RunStep::Continue), None);
}

#[test]
fn transactions_dispatch_by_kind() {
    assert_eq!(run(&[true, true], TransactionKind::Script), Ok(RunAction::RunProgram));
    assert_eq!(run(&[], TransactionKind::Create), Ok(RunAction::Deploy));
    assert_eq!(run(&[true], TransactionKind::Upgrade), Ok(RunAction::Upgrade));
    assert_eq!(run(&[true], TransactionKind::Upload), Ok(RunAction::Upload));
    assert_eq!(run(&[true], TransactionKind::Blob), Ok(RunAction::Blob));
    assert_eq!(run(&[true, false, true], TransactionKind::Blob), Err(PanicReason::InputContractDoesNotExist));
}

#[test]
fn final_states_of_runs() {
    assert_eq!(run_state(RunAction::Deploy, ProgramState::Revert(3)), ProgramState::Return(1));
    assert_eq!(run_state(RunAction::RunProgram, ProgramState::Revert(3)), ProgramState::Revert(3));
    assert_eq!(program_start(0), Some((ScriptExecutionResult::Success, ProgramState::Return(1))));
    assert_eq!(program_start(4), None);
}
