use vstd::prelude::*;

verus! {

/// Reasons for which the execution of an instruction panics.
#[derive(Debug, Clone, Copy, PartialEq, Eq, Structural)]
pub enum PanicReason {
    /// The execution ran out of gas.
    OutOfGas,
    /// A memory address or length is out of the VM memory.
    MemoryOverflow,
    /// The memory range is not owned by the current context.
    MemoryOwnership,
    /// The value of the flags register is not a valid combination of flags.
    InvalidFlags,
    /// The source and destination of a copy overlap.
    MemoryWriteOverlap,
    /// Stack and heap would overlap.
    MemoryGrowthOverlap,
    /// The memory range lies neither within the stack nor within the heap.
    UninitalizedMemoryAccess,
    /// A register below the writable ones was given as destination.
    ReservedRegisterNotWritable,
    /// A predicate ran an instruction that is not allowed in predicates.
    ContractInstructionNotAllowed,
    /// An arithmetic operation gave an undefined result.
    ArithmeticError,
    /// An arithmetic operation overflowed.
    ArithmeticOverflow,
    /// A call-only operation ran outside a call.
    ExpectedInternalContext,
    /// The program counter left the code that may run.
    MemoryNotExecutable,
    /// The bytes are not an instruction.
    InvalidInstruction,
    /// The called contract has no code.
    ContractNotFound,
    /// The transaction has no input at the index.
    InputNotFound,
    /// The transaction has no output at the index.
    OutputNotFound,
    /// The transaction has no witness at the index.
    WitnessNotFound,
    /// The metadata or transaction field selector is not known.
    InvalidMetadataIdentifier,
    /// The transaction does not set the requested policy.
    PolicyIsNotSet,
    /// A contract input names a contract that does not exist.
    InputContractDoesNotExist,
    /// No more receipts of this kind fit.
    TooManyReceipts,
}

/// Internal inconsistencies of the VM that a well-formed state never reaches.
#[derive(Debug, Clone, Copy, PartialEq, Eq, Structural)]
pub enum BugVariant {
    /// The global gas is less than the gas of the current context.
    GlobalGasLessThanContext,
    /// The context gas went below zero.
    ContextGasUnderflow,
    /// The context gas overflowed on return.
    ContextGasOverflow,
    /// A predicate used more gas than it was given.
    GlobalGasUnderflow,
    /// The size of a call frame with its code overflowed.
    CodeSizeOverflow,
    /// The receipts are full.
    ReceiptsCtxFull,
}

/// Result of an instruction that fails either with a VM panic or with a bug.
#[derive(Debug, Clone, Copy, PartialEq, Eq, Structural)]
pub enum PanicOrBug {
    /// A panic of the executed program.
    Panic(PanicReason),
    /// An internal inconsistency of the VM.
    Bug(BugVariant),
}

/// Result of an instruction: success, or a panic or bug.
pub type SimpleResult<T> = Result<T, PanicOrBug>;

impl PanicOrBug {
    /// Wraps a panic reason.
    pub fn panic(reason: PanicReason) -> (r: Self)
        ensures
            r == PanicOrBug::Panic(reason),
    {
        PanicOrBug::Panic(reason)
    }
}

} // verus!
