use crate::error::{BugVariant, PanicOrBug};
use crate::range::MemoryRange;
use crate::state::ProgramState;
use vstd::prelude::*;

verus! {

/// A predicate as the VM runs it: the memory range that holds its bytecode and the
/// index of the transaction input it belongs to.
#[derive(Debug, Clone, PartialEq, Eq, Hash)]
pub struct RuntimePredicate {
    range: MemoryRange,
    idx: usize,
}

impl RuntimePredicate {
    /// The memory range of the bytecode.
    pub closed spec fn spec_program(&self) -> (int, int) {
        self.range@
    }

    /// The input index.
    pub closed spec fn spec_idx(&self) -> int {
        self.idx as int
    }

    /// An empty predicate at address 0 for input 0.
    pub fn empty() -> (r: Self)
        ensures
            r.spec_program() == (0int, 0int),
            r.spec_idx() == 0,
    {
        RuntimePredicate { range: MemoryRange::new(0, 0), idx: 0 }
    }

    /// The memory range that holds the bytecode of the predicate.
    pub fn program(&self) -> (r: &MemoryRange)
        ensures
            r@ == self.spec_program(),
    {
        &self.range
    }

    /// Index of the transaction input that the predicate belongs to.
    pub fn idx(&self) -> (r: usize)
        ensures
            r == self.spec_idx(),
    {
        self.idx
    }

    /// The predicate of input `idx`, given the offset and length of that input's
    /// predicate within the serialized transaction (`None` if the input has no
    /// predicate) and the offset of the transaction in memory. The start address
    /// saturates at `usize::MAX`.
    pub fn from_predicate_offset(predicate_offset: Option<(usize, usize)>, tx_offset: usize, idx: usize) -> (r: Option<Self>)
        ensures
            match predicate_offset {
                None => r is None,
                Some((ofs, len)) => {
                    let addr = if ofs + tx_offset > usize::MAX { usize::MAX as int } else { ofs + tx_offset };
                    &&& r is Some
                    &&& r->0.spec_idx() == idx
                    &&& r->0.spec_program().0 == addr
                    &&& r->0.spec_program().1 == if addr + len > usize::MAX { usize::MAX as int } else { addr + len }
                },
            },
    {
        match predicate_offset {
            None => None,
            Some((ofs, len)) => {
                let addr = ofs.saturating_add(tx_offset);
                Some(RuntimePredicate { range: MemoryRange::new(addr, len), idx })
            },
        }
    }
}

/// Why a predicate runs: to check it against the gas its input declares, or to
/// estimate the gas it uses, with the gas it may use at most.
#[derive(Debug, Clone, Copy, PartialEq, Eq, Structural)]
pub enum PredicateAction {
    /// Checking the predicate.
    Verifying,
    /// Estimating the gas of the predicate.
    Estimating {
        /// Gas the predicate may use.
        available_gas: u64,
    },
}

/// Why the check of the predicate of an input failed.
#[derive(Debug, Clone, Copy, PartialEq, Eq, Structural)]
pub enum PredicateVerificationFailed {
    /// The owner of the input is not the address of its predicate.
    InvalidOwner {
        /// The input.
        index: usize,
    },
    /// The VM failed, while it was set up or while the predicate ran.
    Interpreter {
        /// The input.
        index: usize,
        /// The failure.
        error: PanicOrBug,
    },
    /// The predicate did not return one.
    False {
        /// The input.
        index: usize,
    },
    /// The predicate did not use exactly the gas that its input declares.
    GasMismatch {
        /// The input.
        index: usize,
    },
    /// An internal inconsistency of the VM.
    Bug(BugVariant),
}

/// The gas with which the predicate of input `index` starts, or why it does not
/// run: a checked predicate must be the owner of its input and runs with the gas
/// that the input declares, an estimated one runs with the gas it is given.
pub open spec fn predicate_start_spec(action: PredicateAction, index: usize, owner_valid: bool, declared_gas: Option<u64>)
    -> Result<u64, PredicateVerificationFailed> {
    match action {
        PredicateAction::Verifying => if !owner_valid {
            Err(PredicateVerificationFailed::InvalidOwner { index })
        } else {
            Ok(declared_gas->0)
        },
        PredicateAction::Estimating { available_gas } => Ok(available_gas),
    }
}

/// The gas with which the predicate of input `index` starts, given whether the
/// input's owner is the address of the predicate and the gas that the input
/// declares, or why the predicate does not run.
pub fn predicate_start(action: PredicateAction, index: usize, owner_valid: bool, declared_gas: Option<u64>)
    -> (r: Result<u64, PredicateVerificationFailed>)
    requires
        action is Verifying ==> declared_gas is Some,
    ensures
        r == predicate_start_spec(action, index, owner_valid, declared_gas),
{
    match action {
        PredicateAction::Verifying => {
            if !owner_valid {
                return Err(PredicateVerificationFailed::InvalidOwner { index });
            }
            match declared_gas {
                Some(g) => Ok(g),
                None => Ok(0),
            }
        },
        PredicateAction::Estimating { available_gas } => Ok(available_gas),
    }
}

/// Whether the run of a predicate returned one.
pub open spec fn predicate_succeeded(result: Result<ProgramState, PanicOrBug>) -> bool {
    result matches Ok(ProgramState::Return(v)) && v == 1
}

/// The gas used by the predicate of input `index` and the outcome of its check,
/// given the gas it started with, the outcome of setting up the VM, the outcome of
/// the run and the gas left after it. A failed set-up uses no gas; a check fails
/// when the predicate does not return one or leaves gas unused.
pub open spec fn check_predicate_spec(
    action: PredicateAction,
    index: usize,
    available_gas: u64,
    init: Result<(), PanicOrBug>,
    result: Result<ProgramState, PanicOrBug>,
    remaining_gas: u64,
) -> (u64, Result<(), PredicateVerificationFailed>) {
    match init {
        Err(e) => (0, Err(PredicateVerificationFailed::Interpreter { index, error: e })),
        Ok(()) => if remaining_gas > available_gas {
            (0, Err(PredicateVerificationFailed::Bug(BugVariant::GlobalGasUnderflow)))
        } else {
            let used = (available_gas - remaining_gas) as u64;
            if action is Verifying && !predicate_succeeded(result) {
                match result {
                    Err(e) => (used, Err(PredicateVerificationFailed::Interpreter { index, error: e })),
                    Ok(_) => (used, Err(PredicateVerificationFailed::False { index })),
                }
            } else if action is Verifying && remaining_gas != 0 {
                (used, Err(PredicateVerificationFailed::GasMismatch { index }))
            } else {
                (used, Ok(()))
            }
        },
    }
}

/// The gas used by the predicate of input `index` and the outcome of its check,
/// after the VM was set up with `init` and ran to `result` with `remaining_gas`
/// left of `available_gas`.
pub fn check_predicate(
    action: PredicateAction,
    index: usize,
    available_gas: u64,
    init: Result<(), PanicOrBug>,
    result: Result<ProgramState, PanicOrBug>,
    remaining_gas: u64,
) -> (r: (u64, Result<(), PredicateVerificationFailed>))
    ensures
        r == check_predicate_spec(action, index, available_gas, init, result, remaining_gas),
{
    if let Err(e) = init {
        return (0, Err(PredicateVerificationFailed::Interpreter { index, error: e }));
    }
    let is_successful = match result {
        Ok(ProgramState::Return(v)) => v == 1,
        _ => false,
    };
    let gas_used = match available_gas.checked_sub(remaining_gas) {
        Some(g) => g,
        None => return (0, Err(PredicateVerificationFailed::Bug(BugVariant::GlobalGasUnderflow))),
    };
    if let PredicateAction::Verifying = action {
        if !is_successful {
            return match result {
                Err(e) => (gas_used, Err(PredicateVerificationFailed::Interpreter { index, error: e })),
                Ok(_) => (gas_used, Err(PredicateVerificationFailed::False { index })),
            };
        }
        if remaining_gas != 0 {
            return (gas_used, Err(PredicateVerificationFailed::GasMismatch { index }));
        }
    }
    (gas_used, Ok(()))
}

/// A checked predicate passes only if it returned one and used exactly the gas its
/// input declares; an estimated predicate that ran passes and reports the gas it used.
pub proof fn law_checked_predicate_passes_exactly(
    action: PredicateAction,
    index: usize,
    available_gas: u64,
    result: Result<ProgramState, PanicOrBug>,
    remaining_gas: u64,
)
    ensures
        ({
            let (used, r) = check_predicate_spec(action, index, available_gas, Ok(()), result, remaining_gas);
            &&& (action is Verifying && r is Ok) ==> predicate_succeeded(result) && remaining_gas == 0
                && used == available_gas
            &&& (action is Estimating && remaining_gas <= available_gas) ==> r is Ok
                && used == available_gas - remaining_gas
        }),
{
}

} // verus!
