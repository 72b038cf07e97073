use crate::consts::REG_GGAS;
use crate::error::{BugVariant, PanicOrBug, PanicReason, SimpleResult};
use crate::gas::GasCosts;
use crate::interpreter::{Interpreter, PanicInstruction};
use crate::metadata::TxFields;
use crate::opcode::{imm12_of, opcode, ra, rb, word_from_bytes, GTF, RET, RVRT};
use crate::receipts::{lemma_prefix_push, lemma_prefix_trans, push_refusal, Receipt};
use crate::state::{DebugEval, ExecuteState, ProgramState};
use vstd::prelude::*;

verus! {

/// How the execution of a script ended.
#[derive(Debug, Clone, Copy, PartialEq, Eq, Structural)]
pub enum ScriptExecutionResult {
    /// The script returned.
    Success,
    /// The script reverted.
    Revert,
    /// The script panicked.
    Panic,
}

/// What the run of a script does after an instruction.
#[derive(Debug, Clone, Copy, PartialEq, Eq)]
pub enum RunStep {
    /// Run the next instruction.
    Continue,
    /// Stop at a debug event, which the debugger records as the last state of the run.
    Debug(DebugEval),
    /// End the script with this result and final state.
    Finish(ScriptExecutionResult, ProgramState),
    /// End the script after the instruction panicked: a panic receipt with the reason
    /// is appended, the result is `Panic` and the final state reverts with zero.
    Panic(PanicReason),
    /// Stop with an error that is not a panic of the program; the VM state is left as
    /// it is.
    Fail(BugVariant),
}

/// What the run of a script does after an instruction gave `result`; `in_call` tells
/// whether the instruction ran inside a call. Returns inside a call go on, a revert
/// ends the script, a return outside a call ends it with success, and a panic ends it
/// with a panic receipt.
pub open spec fn run_step(in_call: bool, result: SimpleResult<ExecuteState>) -> RunStep {
    match result {
        Ok(ExecuteState::Proceed) => RunStep::Continue,
        Ok(ExecuteState::DebugEvent(d)) => RunStep::Debug(d),
        Ok(ExecuteState::Revert(r)) => RunStep::Finish(ScriptExecutionResult::Revert, ProgramState::Revert(r)),
        Ok(ExecuteState::Return(r)) => if in_call {
            RunStep::Continue
        } else {
            RunStep::Finish(ScriptExecutionResult::Success, ProgramState::Return(r))
        },
        Ok(ExecuteState::ReturnData(d)) => if in_call {
            RunStep::Continue
        } else {
            RunStep::Finish(ScriptExecutionResult::Success, ProgramState::ReturnData(d))
        },
        Err(PanicOrBug::Panic(reason)) => RunStep::Panic(reason),
        Err(PanicOrBug::Bug(b)) => RunStep::Fail(b),
    }
}

/// What the run of a script does after an instruction gave `result`.
pub fn after_instruction(in_call: bool, result: SimpleResult<ExecuteState>) -> (r: RunStep)
    ensures
        r == run_step(in_call, result),
{
    match result {
        Ok(ExecuteState::Proceed) => RunStep::Continue,
        Ok(ExecuteState::DebugEvent(d)) => RunStep::Debug(d),
        Ok(ExecuteState::Revert(r)) => RunStep::Finish(ScriptExecutionResult::Revert, ProgramState::Revert(r)),
        Ok(ExecuteState::Return(r)) => {
            if in_call {
                RunStep::Continue
            } else {
                RunStep::Finish(ScriptExecutionResult::Success, ProgramState::Return(r))
            }
        },
        Ok(ExecuteState::ReturnData(d)) => {
            if in_call {
                RunStep::Continue
            } else {
                RunStep::Finish(ScriptExecutionResult::Success, ProgramState::ReturnData(d))
            }
        },
        Err(PanicOrBug::Panic(reason)) => RunStep::Panic(reason),
        Err(PanicOrBug::Bug(b)) => RunStep::Fail(b),
    }
}

/// The final state of a script that ends: what `Finish` carries, and a revert with
/// zero after a panic.
pub open spec fn final_state(step: RunStep) -> Option<(ScriptExecutionResult, ProgramState)> {
    match step {
        RunStep::Finish(res, state) => Some((res, state)),
        RunStep::Panic(_) => Some((ScriptExecutionResult::Panic, ProgramState::Revert(0))),
        _ => None,
    }
}

/// The result and final state of a script that ends after `step`, if it ends there.
pub fn script_outcome(step: RunStep) -> (r: Option<(ScriptExecutionResult, ProgramState)>)
    ensures
        r == final_state(step),
{
    match step {
        RunStep::Finish(res, state) => Some((res, state)),
        RunStep::Panic(_) => Some((ScriptExecutionResult::Panic, ProgramState::Revert(0))),
        _ => None,
    }
}

/// A return ends the script only outside a call, and a script never ends in success
/// after a revert or a panic.
pub proof fn law_returns_end_scripts_outside_calls(in_call: bool, result: SimpleResult<ExecuteState>)
    ensures
        (result matches Ok(ExecuteState::Return(_)) || result matches Ok(ExecuteState::ReturnData(_)))
            ==> (run_step(in_call, result) is Continue <==> in_call),
        (result matches Ok(ExecuteState::Revert(_)) || result is Err)
            ==> !(final_state(run_step(in_call, result)) matches Some((ScriptExecutionResult::Success, _))),
{
}

/// The kinds of transaction that the VM executes.
#[derive(Debug, Clone, Copy, PartialEq, Eq, Structural)]
pub enum TransactionKind {
    /// Runs a script.
    Script,
    /// Deploys a contract.
    Create,
    /// Upgrades the consensus parameters or the state transition function.
    Upgrade,
    /// Uploads a part of a bytecode.
    Upload,
    /// Stores a blob.
    Blob,
}

/// What the execution of a transaction does once its contract inputs are checked.
#[derive(Debug, Clone, Copy, PartialEq, Eq, Structural)]
pub enum RunAction {
    /// Deploy the contract, then update the outputs.
    Deploy,
    /// Apply the upgrade, then update the outputs.
    Upgrade,
    /// Store the uploaded part, then update the outputs.
    Upload,
    /// Store the blob, then update the outputs.
    Blob,
    /// Run the script.
    RunProgram,
}

/// The action for a transaction of kind `kind`.
pub open spec fn run_action(kind: TransactionKind) -> RunAction {
    match kind {
        TransactionKind::Script => RunAction::RunProgram,
        TransactionKind::Create => RunAction::Deploy,
        TransactionKind::Upgrade => RunAction::Upgrade,
        TransactionKind::Upload => RunAction::Upload,
        TransactionKind::Blob => RunAction::Blob,
    }
}

/// What the execution of a transaction of kind `kind` does, given for each of its
/// contract inputs, in order, whether the contract exists: a missing contract makes
/// it panic with `InputContractDoesNotExist`.
pub fn run(contracts_exist: &[bool], kind: TransactionKind) -> (r: Result<RunAction, PanicReason>)
    ensures
        r == if contracts_exist@.contains(false) {
            Err::<RunAction, PanicReason>(PanicReason::InputContractDoesNotExist)
        } else {
            Ok(run_action(kind))
        },
{
    let mut i: usize = 0;
    while i < contracts_exist.len()
        invariant
            i <= contracts_exist@.len(),
            forall|j: int| 0 <= j < i ==> contracts_exist@[j],
        decreases contracts_exist@.len() - i,
    {
        if !contracts_exist[i] {
            return Err(PanicReason::InputContractDoesNotExist);
        }
        i = i + 1;
    }
    proof {
        if contracts_exist@.contains(false) {
            let j = choose|j: int| 0 <= j < contracts_exist@.len() && contracts_exist@[j] == false;
            assert(contracts_exist@[j]);
        }
    }
    match kind {
        TransactionKind::Script => Ok(RunAction::RunProgram),
        TransactionKind::Create => Ok(RunAction::Deploy),
        TransactionKind::Upgrade => Ok(RunAction::Upgrade),
        TransactionKind::Upload => Ok(RunAction::Upload),
        TransactionKind::Blob => Ok(RunAction::Blob),
    }
}

/// The final state of a transaction whose action succeeded: a script ends in the
/// state its program reached, every other transaction returns one.
pub fn run_state(action: RunAction, program: ProgramState) -> (r: ProgramState)
    ensures
        r == match action {
            RunAction::RunProgram => program,
            _ => ProgramState::Return(1),
        },
{
    match action {
        RunAction::RunProgram => program,
        _ => ProgramState::Return(1),
    }
}

/// How a script of `script_len` bytes starts: an empty script succeeds at once and
/// returns one, any other runs its instructions.
pub fn program_start(script_len: usize) -> (r: Option<(ScriptExecutionResult, ProgramState)>)
    ensures
        r == if script_len == 0 {
            Some((ScriptExecutionResult::Success, ProgramState::Return(1)))
        } else {
            None::<(ScriptExecutionResult, ProgramState)>
        },
{
    if script_len == 0 {
        Some((ScriptExecutionResult::Success, ProgramState::Return(1)))
    } else {
        None
    }
}

/// What one step of a script does.
#[derive(Debug, Clone, Copy, PartialEq, Eq)]
pub enum ScriptStep {
    /// The script goes on.
    Continue,
    /// The script ended with this result and final state.
    Finished(ScriptExecutionResult, ProgramState),
    /// The script stopped at a debug event.
    Debug(DebugEval),
    /// The instruction at the program counter, with these bytes, is not one that the
    /// library runs; nothing changed, and the caller runs it.
    Host([u8; 4]),
}

/// How a run of a script stops.
#[derive(Debug, Clone, Copy, PartialEq, Eq)]
pub enum RunOutcome {
    /// The script ended: how, in which state, and the gas it used.
    Finished {
        /// How the script ended.
        result: ScriptExecutionResult,
        /// Its final state.
        state: ProgramState,
        /// The gas it used.
        gas_used: u64,
    },
    /// The script stopped at a debug event.
    Debug(DebugEval),
    /// The instruction with these bytes is not one that the library runs; the caller
    /// runs it and runs the script on.
    Host([u8; 4]),
    /// The step budget ran out; running on continues the script.
    Paused,
}

/// What a finished script reports: a panic ends in `Revert(0)` after a panic receipt,
/// a success in a returned word or data, a revert in a revert state.
pub open spec fn ending_fits(result: ScriptExecutionResult, state: ProgramState, receipts: Seq<Receipt>) -> bool {
    &&& result == ScriptExecutionResult::Panic ==> state == ProgramState::Revert(0) && receipts.len() > 0
        && receipts.last() is Panic
    &&& result == ScriptExecutionResult::Success ==> (state is Return || state is ReturnData)
    &&& result == ScriptExecutionResult::Revert ==> state is Revert
}

impl<Trace> Interpreter<Trace> {
    /// Runs one instruction of a script: fetches it, runs it (RET, RVRT and GTF, over
    /// the transaction `tx`, included), and decides as `after_instruction` does
    /// whether the script goes on; a panic
    /// adds its receipt and ends the script in `Revert(0)`, and a bug is an error.
    pub fn script_step(&mut self, tx: &TxFields, g: &GasCosts) -> (r: SimpleResult<ScriptStep>)
        requires
            old(self).inv(),
            g.well_formed(),
        ensures
            final(self).inv(),
            old(self).spec_receipts().is_prefix_of(final(self).spec_receipts()),
            match r {
                Ok(ScriptStep::Finished(res, st)) => ending_fits(res, st, final(self).spec_receipts()),
                Ok(ScriptStep::Host(_)) => *final(self) == *old(self),
                _ => true,
            },
    {
        let in_call = self.in_call();
        let raw = match self.fetch_instruction() {
            Ok(raw) => raw,
            Err(p) => {
                self.append_panic_receipt(p)?;
                return Ok(ScriptStep::Finished(ScriptExecutionResult::Panic, ProgramState::Revert(0)));
            },
        };
        let word = word_from_bytes(raw);
        let result = match self.instruction_inner(raw, false, g) {
            Some(r) => r,
            None => {
                let op = opcode(word);
                if op == RET {
                    match self.gas_charge(g.ret) {
                        Err(e) => Err(e),
                        Ok(()) => {
                            let v = self.registers()[ra(word) as usize];
                            match self.ret(v) {
                                Ok(()) => Ok(ExecuteState::Return(v)),
                                Err(e) => Err(e),
                            }
                        },
                    }
                } else if op == RVRT {
                    match self.gas_charge(g.rvrt) {
                        Err(e) => Err(e),
                        Ok(()) => {
                            let v = self.registers()[ra(word) as usize];
                            match self.revert(v) {
                                Ok(()) => Ok(ExecuteState::Revert(v)),
                                Err(e) => Err(e),
                            }
                        },
                    }
                } else if op == GTF {
                    match self.gas_charge(g.gtf) {
                        Err(e) => Err(e),
                        Ok(()) => {
                            let b = self.registers()[rb(word) as usize];
                            match self.gtf(tx, ra(word) as usize, b, imm12_of(word) as u16) {
                                Ok(()) => Ok(ExecuteState::Proceed),
                                Err(e) => Err(e),
                            }
                        },
                    }
                } else {
                    return Ok(ScriptStep::Host(raw));
                }
            },
        };
        match after_instruction(in_call, result) {
            RunStep::Continue => Ok(ScriptStep::Continue),
            RunStep::Debug(d) => Ok(ScriptStep::Debug(d)),
            RunStep::Finish(res, st) => Ok(ScriptStep::Finished(res, st)),
            RunStep::Panic(reason) => {
                self.append_panic_receipt(PanicInstruction { reason, instruction: word })?;
                Ok(ScriptStep::Finished(ScriptExecutionResult::Panic, ProgramState::Revert(0)))
            },
            RunStep::Fail(b) => Err(PanicOrBug::Bug(b)),
        }
    }

    /// Ends a script that ended with `result` in `state`: the gas used is the limit
    /// minus the gas left, which must not exceed the limit, and a script result
    /// receipt records both.
    pub fn finish_script(&mut self, result: ScriptExecutionResult, state: ProgramState, gas_limit: u64)
        -> (r: SimpleResult<(ScriptExecutionResult, ProgramState, u64)>)
        ensures
            final(self).spec_registers() == old(self).spec_registers(),
            final(self).spec_memory() == old(self).spec_memory(),
            final(self).spec_frames() == old(self).spec_frames(),
            final(self).spec_context() == old(self).spec_context(),
            final(self).spec_trace() == old(self).spec_trace(),
            ({
                let left = old(self).spec_registers()[REG_GGAS as int];
                if left > gas_limit {
                    r == Err::<(ScriptExecutionResult, ProgramState, u64), PanicOrBug>(
                        PanicOrBug::Bug(BugVariant::GlobalGasUnderflow))
                        && final(self).spec_receipts() == old(self).spec_receipts()
                } else {
                    let receipt = Receipt::ScriptResult { result, gas_used: (gas_limit - left) as u64 };
                    match push_refusal(old(self).spec_receipts().len() as int, receipt) {
                        Some(e) => r == Err::<(ScriptExecutionResult, ProgramState, u64), PanicOrBug>(e)
                            && final(self).spec_receipts() == old(self).spec_receipts(),
                        None => r == Ok::<(ScriptExecutionResult, ProgramState, u64), PanicOrBug>(
                            (result, state, (gas_limit - left) as u64))
                            && final(self).spec_receipts() == old(self).spec_receipts().push(receipt),
                    }
                }
            }),
    {
        let gas_used = match gas_limit.checked_sub(self.remaining_gas()) {
            Some(u) => u,
            None => return Err(PanicOrBug::Bug(BugVariant::GlobalGasUnderflow)),
        };
        self.push_receipt(Receipt::ScriptResult { result, gas_used })?;
        Ok((result, state, gas_used))
    }

    /// Runs a script of `script_len` bytes of the transaction `tx` with the gas limit
    /// `gas_limit`, at most `max_steps` instructions at a time. An empty script
    /// returns one at once. When
    /// the script ends, it reports how it ended, its final state and the gas it used,
    /// which is the limit minus the gas left, and the last receipt records them; a
    /// panic ends in `Revert(0)` after a panic receipt. Running on after `Host` (once
    /// the caller ran the instruction) or `Paused` continues the script.
    pub fn run_program(&mut self, tx: &TxFields, script_len: u64, gas_limit: u64, g: &GasCosts, max_steps: u64)
        -> (r: SimpleResult<RunOutcome>)
        requires
            old(self).inv(),
            g.well_formed(),
        ensures
            final(self).inv(),
            old(self).spec_receipts().is_prefix_of(final(self).spec_receipts()),
            match r {
                Ok(RunOutcome::Finished { result, state, gas_used }) => {
                    let receipts = final(self).spec_receipts();
                    &&& gas_used + final(self).spec_registers()[REG_GGAS as int] == gas_limit
                    &&& receipts.len() > 0
                    &&& receipts.last() == Receipt::ScriptResult { result, gas_used }
                    &&& ending_fits(result, state, receipts.drop_last())
                    &&& script_len == 0 ==> result == ScriptExecutionResult::Success && state == ProgramState::Return(1)
                },
                Ok(RunOutcome::Host(_)) => script_len != 0,
                _ => true,
            },
    {
        let ghost start = self.spec_receipts();
        proof {
            lemma_prefix_push(start, Receipt::ScriptResult { result: ScriptExecutionResult::Success, gas_used: 0 });
        }
        if script_len == 0 {
            self.ret(1)?;
            let ghost mid = self.spec_receipts();
            let out = self.finish_script(ScriptExecutionResult::Success, ProgramState::Return(1), gas_limit);
            proof {
                lemma_prefix_push(mid, Receipt::ScriptResult { result: ScriptExecutionResult::Success, gas_used: 0 });
                if self.spec_receipts().len() > mid.len() {
                    lemma_prefix_push(mid, self.spec_receipts().last());
                    assert(self.spec_receipts() == mid.push(self.spec_receipts().last()));
                }
                lemma_prefix_trans(start, mid, self.spec_receipts());
            }
            let (result, state, gas_used) = out?;
            return Ok(RunOutcome::Finished { result, state, gas_used });
        }
        let mut steps: u64 = 0;
        while steps < max_steps
            invariant
                self.inv(),
                g.well_formed(),
                script_len != 0,
                start == old(self).spec_receipts(),
                start.is_prefix_of(self.spec_receipts()),
            decreases max_steps - steps,
        {
            let ghost before = self.spec_receipts();
            let step = self.script_step(tx, g);
            proof {
                lemma_prefix_trans(start, before, self.spec_receipts());
            }
            match step? {
                ScriptStep::Continue => {},
                ScriptStep::Debug(d) => return Ok(RunOutcome::Debug(d)),
                ScriptStep::Host(raw) => return Ok(RunOutcome::Host(raw)),
                ScriptStep::Finished(res, st) => {
                    let ghost mid = self.spec_receipts();
                    let out = self.finish_script(res, st, gas_limit);
                    proof {
                        lemma_prefix_push(mid, Receipt::ScriptResult { result: res, gas_used: 0 });
                        if self.spec_receipts().len() > mid.len() {
                            lemma_prefix_push(mid, self.spec_receipts().last());
                            assert(self.spec_receipts() == mid.push(self.spec_receipts().last()));
                        }
                        if out is Ok {
                            assert(self.spec_receipts().drop_last() =~= mid);
                        }
                        lemma_prefix_trans(start, mid, self.spec_receipts());
                    }
                    let (result, state, gas_used) = out?;
                    return Ok(RunOutcome::Finished { result, state, gas_used });
                },
            }
            steps = steps + 1;
        }
        Ok(RunOutcome::Paused)
    }
}

} // verus!
