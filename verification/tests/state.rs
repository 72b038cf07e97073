use fuel_vm::state::{Breakpoint, DebugEval, Debugger, ExecuteState, ProgramState};

#[test]
fn breakpoints_are_instruction_addresses() {
    let b = Breakpoint::new([7u8; 32], 3);
    assert_eq!(b.pc(), 12);
    assert_eq!(*b.contract(), [7u8; 32]);
    let s = Breakpoint::script(2);
    assert_eq!(s.pc(), 8);
    assert_eq!(*s.contract(), [0u8; 32]);
    assert!(Breakpoint::raw([0u8; 32], 8).same_as(&s));
    assert!(!b.same_as(&s));
}

#[test]
fn debugger_stops_at_breakpoints() {
    let mut d = Debugger::new();
    let contract = [1u8; 32];
    let b = Breakpoint::new(contract, 2);
    d.set_breakpoint(b);
    assert_eq!(d.eval_state(Some(contract), 4), DebugEval::Continue);
    assert_eq!(d.eval_state(Some(contract), 8), DebugEval::Breakpoint(Breakpoint::raw(contract, 8)));
    assert_eq!(d.eval_state(None, 8), DebugEval::Continue);
    d.remove_breakpoint(&b);
    assert_eq!(d.eval_state(Some(contract), 8), DebugEval::Continue);
}

#[test]
fn resuming_skips_the_breakpoint_once() {
    let mut d = Debugger::new();
    let b = Breakpoint::script(1);
    d.set_breakpoint(b);
    let eval = d.eval_state(None, 4);
    assert_eq!(eval, DebugEval::Breakpoint(b));
    d.set_last_state(ProgramState::RunProgram(eval));
    assert_eq!(*d.last_state(), Some(ProgramState::RunProgram(eval)));
    assert_eq!(d.eval_state(None, 4), DebugEval::Continue);
    assert_eq!(*d.last_state(), None);
    assert_eq!(d.eval_state(None, 4), DebugEval::Breakpoint(b));
}

#[test]
fn single_stepping_stops_everywhere() {
    let mut d = Debugger::new();
    assert!(!d.single_stepping());
    d.set_single_stepping(true);
    assert!(d.single_stepping());
    assert_eq!(d.eval_state(None, 4), DebugEval::Breakpoint(Breakpoint::raw([0u8; 32], 4)));
    assert_eq!(d.eval_state(Some([2u8; 32]), 100), DebugEval::Breakpoint(Breakpoint::raw([2u8; 32], 100)));
    d.set_last_state(ProgramState::RunProgram(DebugEval::Breakpoint(Breakpoint::raw([0u8; 32], 4))));
    assert_eq!(d.eval_state(None, 4), DebugEval::Continue);
    d.set_single_stepping(false);
    assert_eq!(d.eval_state(None, 8), DebugEval::Continue);
}

#[test]
fn setting_a_breakpoint_twice_keeps_one() {
    let mut d = Debugger::new();
    let b = Breakpoint::script(3);
    d.set_breakpoint(b);
    d.set_breakpoint(b);
    d.remove_breakpoint(&b);
    assert_eq!(d.eval_state(None, 12), DebugEval::Continue);
}

#[test]
fn states() {
    assert!(ExecuteState::Proceed.should_continue());
    assert!(ExecuteState::DebugEvent(DebugEval::Continue).should_continue());
    assert!(!ExecuteState::Return(1).should_continue());
    assert!(!ExecuteState::DebugEvent(DebugEval::Breakpoint(Breakpoint::script(0))).should_continue());
    let b = Breakpoint::script(5);
    let s = ProgramState::VerifyPredicate(DebugEval::Breakpoint(b));
    assert!(s.is_debug());
    assert!(s.is_at(&b));
    assert!(!s.is_at(&Breakpoint::script(6)));
    assert_eq!(s.debug_ref(), Some(&DebugEval::Breakpoint(b)));
    assert!(!ProgramState::Return(0).is_debug());
    assert!(DebugEval::Continue.should_continue());
    assert_eq!(DebugEval::Breakpoint(b).breakpoint(), Some(&b));
    assert_eq!(DebugEval::Continue.breakpoint(), None);
}

#[test]
fn defaults_and_conversions() {
    assert_eq!(DebugEval::default(), DebugEval::Continue);
    assert_eq!(ExecuteState::default(), ExecuteState::Proceed);
    let b = Breakpoint::script(4);
    assert_eq!(DebugEval::from(b), DebugEval::Breakpoint(b));
    assert_eq!(ExecuteState::from(DebugEval::Continue), ExecuteState::DebugEvent(DebugEval::Continue));
}
