use crate::consts::{INSTRUCTION_SIZE, VM_MAX_RAM};
use crate::gas::{sat_mul, saturating_mul};
use vstd::prelude::*;

verus! {

/// A location that stops the program under the debugger: a contract (all zeros for
/// scripts and predicates) and a program counter.
#[derive(Debug, Default, Clone, Copy, PartialEq, Eq, Hash)]
pub struct Breakpoint {
    contract: [u8; 32],
    pc: u64,
}

/// Whether two 32-byte identifiers are equal.
pub fn bytes32_eq(a: &[u8; 32], b: &[u8; 32]) -> (r: bool)
    ensures
        r == (a@ == b@),
{
    let mut i: usize = 0;
    while i < 32
        invariant
            i <= 32,
            a@.len() == 32,
            b@.len() == 32,
            forall|j: int| 0 <= j < i ==> a@[j] == b@[j],
        decreases 32 - i,
    {
        if a[i] != b[i] {
            return false;
        }
        i = i + 1;
    }
    assert(a@ =~= b@);
    true
}

impl Breakpoint {
    /// The breakpoint as a contract and a program counter.
    pub closed spec fn spec_view(&self) -> (Seq<u8>, u64) {
        (self.contract@, self.pc)
    }

    /// The breakpoint at the given contract and program counter, in bytes.
    pub fn raw(contract: [u8; 32], pc: u64) -> (r: Self)
        ensures
            r.spec_view() == (contract@, pc),
    {
        Breakpoint { contract, pc }
    }

    /// The breakpoint at instruction `pc` of the contract's code; the program
    /// counter must fit in the VM memory.
    pub fn new(contract: [u8; 32], pc: u64) -> (r: Self)
        requires
            sat_mul(pc as int, INSTRUCTION_SIZE as int) <= VM_MAX_RAM,
        ensures
            r.spec_view() == (contract@, sat_mul(pc as int, INSTRUCTION_SIZE as int) as u64),
    {
        let pc = saturating_mul(pc, INSTRUCTION_SIZE);
        Self::raw(contract, pc)
    }

    /// The breakpoint at instruction `pc` of a script.
    pub fn script(pc: u64) -> (r: Self)
        requires
            sat_mul(pc as int, INSTRUCTION_SIZE as int) <= VM_MAX_RAM,
        ensures
            r.spec_view() == (Seq::new(32, |i: int| 0u8), sat_mul(pc as int, INSTRUCTION_SIZE as int) as u64),
    {
        let r = Self::new([0u8; 32], pc);
        assert(r.spec_view().0 =~= Seq::new(32, |i: int| 0u8));
        r
    }

    /// The contract of the breakpoint.
    pub fn contract(&self) -> (r: &[u8; 32])
        ensures
            r@ == self.spec_view().0,
    {
        &self.contract
    }

    /// The program counter of the breakpoint.
    pub fn pc(&self) -> (r: u64)
        ensures
            r == self.spec_view().1,
    {
        self.pc
    }

    /// Whether two breakpoints are the same location.
    pub fn same_as(&self, other: &Self) -> (r: bool)
        ensures
            r == (self.spec_view() == other.spec_view()),
    {
        self.pc == other.pc && bytes32_eq(&self.contract, &other.contract)
    }
}

/// Whether the program breaks at a breakpoint or continues.
#[derive(Debug, Clone, Copy, PartialEq, Eq, Hash)]
pub enum DebugEval {
    /// The program breaks at this location.
    Breakpoint(Breakpoint),
    /// The program continues.
    Continue,
}

impl DebugEval {
    /// Whether the program continues.
    pub fn should_continue(&self) -> (r: bool)
        ensures
            r == (self is Continue),
    {
        match self {
            DebugEval::Continue => true,
            _ => false,
        }
    }

    /// The breakpoint where the program breaks, if it does.
    pub fn breakpoint(&self) -> (r: Option<&Breakpoint>)
        ensures
            match *self {
                DebugEval::Breakpoint(b) => r == Some(&b),
                DebugEval::Continue => r is None,
            },
    {
        match self {
            DebugEval::Breakpoint(b) => Some(b),
            _ => None,
        }
    }
}

impl Default for DebugEval {
    fn default() -> (r: Self)
        ensures
            r is Continue,
    {
        DebugEval::Continue
    }
}

impl From<Breakpoint> for DebugEval {
    fn from(b: Breakpoint) -> (r: Self) {
        DebugEval::Breakpoint(b)
    }
}

impl vstd::std_specs::convert::FromSpecImpl<Breakpoint> for DebugEval {
    open spec fn obeys_from_spec() -> bool {
        true
    }

    open spec fn from_spec(b: Breakpoint) -> Self {
        DebugEval::Breakpoint(b)
    }
}

/// The state after executing instructions.
#[derive(Debug, Clone, Copy, PartialEq, Eq, Hash)]
pub enum ExecuteState {
    /// Execution proceeds.
    Proceed,
    /// The context returned a word.
    Return(u64),
    /// The context returned data, given by its digest.
    ReturnData([u8; 32]),
    /// The context reverted.
    Revert(u64),
    /// A debug event was reached.
    DebugEvent(DebugEval),
}

impl ExecuteState {
    /// Whether the execution continues.
    pub fn should_continue(&self) -> (r: bool)
        ensures
            r == (self is Proceed || *self == ExecuteState::DebugEvent(DebugEval::Continue)),
    {
        match self {
            ExecuteState::Proceed => true,
            ExecuteState::DebugEvent(DebugEval::Continue) => true,
            _ => false,
        }
    }
}

impl Default for ExecuteState {
    fn default() -> (r: Self)
        ensures
            r is Proceed,
    {
        ExecuteState::Proceed
    }
}

impl From<DebugEval> for ExecuteState {
    fn from(d: DebugEval) -> (r: Self) {
        ExecuteState::DebugEvent(d)
    }
}

impl vstd::std_specs::convert::FromSpecImpl<DebugEval> for ExecuteState {
    open spec fn obeys_from_spec() -> bool {
        true
    }

    open spec fn from_spec(d: DebugEval) -> Self {
        ExecuteState::DebugEvent(d)
    }
}

/// The state after executing a program.
#[derive(Debug, Clone, Copy, PartialEq, Eq, Hash)]
pub enum ProgramState {
    /// The program returned a word.
    Return(u64),
    /// The program returned data, given by its digest.
    ReturnData([u8; 32]),
    /// The program reverted.
    Revert(u64),
    /// The program stopped at a debug event while running.
    RunProgram(DebugEval),
    /// The program stopped at a debug event while checking a predicate.
    VerifyPredicate(DebugEval),
}

impl ProgramState {
    /// The debug event, if the program stopped at one.
    pub open spec fn spec_debug(&self) -> Option<DebugEval> {
        match *self {
            ProgramState::RunProgram(d) => Some(d),
            ProgramState::VerifyPredicate(d) => Some(d),
            _ => None,
        }
    }

    /// Whether the state is a stop at the given breakpoint.
    pub open spec fn spec_at(&self, b: Breakpoint) -> bool {
        match self.spec_debug() {
            Some(DebugEval::Breakpoint(x)) => x.spec_view() == b.spec_view(),
            _ => false,
        }
    }

    /// The debug event, if the program stopped at one.
    pub fn debug_ref(&self) -> (r: Option<&DebugEval>)
        ensures
            match self.spec_debug() {
                Some(d) => r == Some(&d),
                None => r is None,
            },
    {
        match self {
            ProgramState::RunProgram(d) | ProgramState::VerifyPredicate(d) => Some(d),
            _ => None,
        }
    }

    /// Whether the program stopped at a debug event.
    pub fn is_debug(&self) -> (r: bool)
        ensures
            r == self.spec_debug() is Some,
    {
        self.debug_ref().is_some()
    }

    /// Whether the program stopped at the breakpoint `b`.
    pub fn is_at(&self, b: &Breakpoint) -> (r: bool)
        ensures
            r == self.spec_at(*b),
    {
        match self.debug_ref() {
            Some(DebugEval::Breakpoint(x)) => x.same_as(b),
            _ => false,
        }
    }
}

/// The debugger of the VM: single stepping, a set of breakpoints, and the state at
/// which the program last stopped.
#[derive(Debug, Default, Clone)]
pub struct Debugger {
    single_stepping: bool,
    breakpoints: Vec<Breakpoint>,
    last_state: Option<ProgramState>,
}

impl Debugger {
    /// The breakpoints, each once.
    pub closed spec fn spec_breakpoints(&self) -> Set<(Seq<u8>, u64)> {
        Set::new(|v: (Seq<u8>, u64)| exists|i: int| 0 <= i < self.breakpoints@.len()
            && #[trigger] self.breakpoints@[i].spec_view() == v)
    }

    /// Whether single stepping is on.
    pub closed spec fn spec_single_stepping(&self) -> bool {
        self.single_stepping
    }

    /// The state at which the program last stopped.
    pub closed spec fn spec_last_state(&self) -> Option<ProgramState> {
        self.last_state
    }

    /// The list of breakpoints holds each location once.
    pub closed spec fn inv(&self) -> bool {
        forall|i: int, j: int| 0 <= i < j < self.breakpoints@.len()
            ==> self.breakpoints@[i].spec_view() != self.breakpoints@[j].spec_view()
    }

    /// A debugger without breakpoints, single stepping or last state.
    pub fn new() -> (r: Self)
        ensures
            r.inv(),
            r.spec_breakpoints() == Set::<(Seq<u8>, u64)>::empty(),
            !r.spec_single_stepping(),
            r.spec_last_state() is None,
    {
        let r = Debugger { single_stepping: false, breakpoints: Vec::new(), last_state: None };
        assert(r.spec_breakpoints() =~= Set::<(Seq<u8>, u64)>::empty());
        r
    }

    /// Whether single stepping is on.
    pub fn single_stepping(&self) -> (r: bool)
        ensures
            r == self.spec_single_stepping(),
    {
        self.single_stepping
    }

    /// Turns single stepping on or off.
    pub fn set_single_stepping(&mut self, single_stepping: bool)
        requires
            old(self).inv(),
        ensures
            final(self).inv(),
            final(self).spec_single_stepping() == single_stepping,
            final(self).spec_breakpoints() == old(self).spec_breakpoints(),
            final(self).spec_last_state() == old(self).spec_last_state(),
    {
        self.single_stepping = single_stepping;
    }

    /// Position of a breakpoint in the list, if it is there.
    fn find(&self, breakpoint: &Breakpoint) -> (r: Option<usize>)
        ensures
            match r {
                Some(i) => i < self.breakpoints@.len() && self.breakpoints@[i as int].spec_view() == breakpoint.spec_view(),
                None => !self.spec_breakpoints().contains(breakpoint.spec_view()),
            },
    {
        let mut i: usize = 0;
        while i < self.breakpoints.len()
            invariant
                i <= self.breakpoints@.len(),
                forall|j: int| 0 <= j < i ==> self.breakpoints@[j].spec_view() != breakpoint.spec_view(),
            decreases self.breakpoints@.len() - i,
        {
            if self.breakpoints[i].same_as(breakpoint) {
                return Some(i);
            }
            i = i + 1;
        }
        None
    }

    /// Adds a breakpoint.
    pub fn set_breakpoint(&mut self, breakpoint: Breakpoint)
        requires
            old(self).inv(),
        ensures
            final(self).inv(),
            final(self).spec_breakpoints() == old(self).spec_breakpoints().insert(breakpoint.spec_view()),
            final(self).spec_single_stepping() == old(self).spec_single_stepping(),
            final(self).spec_last_state() == old(self).spec_last_state(),
    {
        match self.find(&breakpoint) {
            Some(_) => {
                assert(self.spec_breakpoints() =~= self.spec_breakpoints().insert(breakpoint.spec_view()));
            },
            None => {
                let ghost old_bps = self.breakpoints@;
                self.breakpoints.push(breakpoint);
                proof {
                    let n = old_bps.len() as int;
                    assert(self.breakpoints@[n] == breakpoint);
                    assert forall|v: (Seq<u8>, u64)| #[trigger] self.spec_breakpoints().contains(v)
                        == old(self).spec_breakpoints().insert(breakpoint.spec_view()).contains(v) by {
                        if self.spec_breakpoints().contains(v) {
                            let i = choose|i: int| 0 <= i < self.breakpoints@.len()
                                && #[trigger] self.breakpoints@[i].spec_view() == v;
                            if i < n {
                                assert(old_bps[i] == self.breakpoints@[i]);
                            }
                        }
                        if old(self).spec_breakpoints().contains(v) {
                            let i = choose|i: int| 0 <= i < old_bps.len() && #[trigger] old_bps[i].spec_view() == v;
                            assert(self.breakpoints@[i] == old_bps[i]);
                        }
                    }
                    assert(self.spec_breakpoints() =~= old(self).spec_breakpoints().insert(breakpoint.spec_view()));
                }
            },
        }
    }

    /// Removes a breakpoint, if it is set.
    pub fn remove_breakpoint(&mut self, breakpoint: &Breakpoint)
        requires
            old(self).inv(),
        ensures
            final(self).inv(),
            final(self).spec_breakpoints() == old(self).spec_breakpoints().remove(breakpoint.spec_view()),
            final(self).spec_single_stepping() == old(self).spec_single_stepping(),
            final(self).spec_last_state() == old(self).spec_last_state(),
    {
        match self.find(breakpoint) {
            None => {
                assert(self.spec_breakpoints() =~= self.spec_breakpoints().remove(breakpoint.spec_view()));
            },
            Some(i) => {
                let ghost old_bps = self.breakpoints@;
                self.breakpoints.remove(i);
                proof {
                    assert forall|v: (Seq<u8>, u64)| #[trigger] self.spec_breakpoints().contains(v)
                        == old(self).spec_breakpoints().remove(breakpoint.spec_view()).contains(v) by {
                        if self.spec_breakpoints().contains(v) {
                            let k = choose|k: int| 0 <= k < self.breakpoints@.len()
                                && #[trigger] self.breakpoints@[k].spec_view() == v;
                            if k < i {
                                assert(old_bps[k] == self.breakpoints@[k]);
                                assert(old_bps[k].spec_view() != old_bps[i as int].spec_view());
                            } else {
                                assert(old_bps[k + 1] == self.breakpoints@[k]);
                                assert(old_bps[k + 1].spec_view() != old_bps[i as int].spec_view());
                            }
                        }
                        if old(self).spec_breakpoints().remove(breakpoint.spec_view()).contains(v) {
                            let k = choose|k: int| 0 <= k < old_bps.len() && #[trigger] old_bps[k].spec_view() == v;
                            assert(k != i);
                            if k < i {
                                assert(self.breakpoints@[k] == old_bps[k]);
                            } else {
                                assert(self.breakpoints@[k - 1] == old_bps[k]);
                            }
                        }
                    }
                    assert(self.spec_breakpoints() =~= old(self).spec_breakpoints().remove(breakpoint.spec_view()));
                    assert forall|a: int, b: int| 0 <= a < b < self.breakpoints@.len() implies
                        self.breakpoints@[a].spec_view() != self.breakpoints@[b].spec_view() by {
                        let a0 = if a < i { a } else { a + 1 };
                        let b0 = if b < i { b } else { b + 1 };
                        assert(self.breakpoints@[a] == old_bps[a0]);
                        assert(self.breakpoints@[b] == old_bps[b0]);
                    }
                }
            },
        }
    }

    /// Whether the program stops at `contract` (all zeros when `None`) and `pc`:
    /// under single stepping it stops everywhere, otherwise at breakpoints; in either
    /// case it does not stop again at the location where it last stopped. The last
    /// state is consumed.
    pub fn eval_state(&mut self, contract: Option<[u8; 32]>, pc: u64) -> (r: DebugEval)
        requires
            old(self).inv(),
        ensures
            final(self).inv(),
            final(self).spec_last_state() is None,
            final(self).spec_breakpoints() == old(self).spec_breakpoints(),
            final(self).spec_single_stepping() == old(self).spec_single_stepping(),
            ({
                let c = match contract { Some(c) => c@, None => Seq::new(32, |i: int| 0u8) };
                let stops = old(self).spec_single_stepping() || old(self).spec_breakpoints().contains((c, pc));
                let resumed = match old(self).spec_last_state() {
                    Some(s) => match s.spec_debug() {
                        Some(DebugEval::Breakpoint(x)) => x.spec_view() == (c, pc),
                        _ => false,
                    },
                    None => false,
                };
                if stops && !resumed {
                    r matches DebugEval::Breakpoint(b) && b.spec_view() == (c, pc)
                } else {
                    r is Continue
                }
            }),
    {
        let ghost expected = match contract { Some(c) => c@, None => Seq::new(32, |i: int| 0u8) };
        let contract = match contract {
            Some(c) => c,
            None => [0u8; 32],
        };
        assert(contract@ =~= expected);
        let last_state = self.last_state.take();
        let current = Breakpoint::raw(contract, pc);
        let stops = if self.single_stepping {
            true
        } else {
            match self.find(&current) {
                Some(_) => true,
                None => false,
            }
        };
        if !stops {
            return DebugEval::Continue;
        }
        match last_state {
            Some(s) => if s.is_at(&current) {
                DebugEval::Continue
            } else {
                DebugEval::Breakpoint(current)
            },
            None => DebugEval::Breakpoint(current),
        }
    }

    /// Records the state at which the program stopped.
    pub fn set_last_state(&mut self, state: ProgramState)
        requires
            old(self).inv(),
        ensures
            final(self).inv(),
            final(self).spec_last_state() == Some(state),
            final(self).spec_breakpoints() == old(self).spec_breakpoints(),
            final(self).spec_single_stepping() == old(self).spec_single_stepping(),
    {
        self.last_state = Some(state);
    }

    /// The state at which the program last stopped.
    pub fn last_state(&self) -> (r: &Option<ProgramState>)
        ensures
            *r == self.spec_last_state(),
    {
        &self.last_state
    }
}

} // verus!
