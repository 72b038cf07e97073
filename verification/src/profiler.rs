use fuel_types::ContractId;
use vstd::prelude::*;

verus! {

/// Identifier of a contract: 32 bytes.
#[verifier::external_type_specification]
#[verifier::external_body]
pub struct ExContractId(ContractId);

/// Location of an instruction: the contract it belongs to, if any, and its offset
/// from the start of the running code.
#[derive(Debug, Clone, Copy, PartialEq, Eq, Hash)]
pub struct InstructionLocation {
    context: Option<ContractId>,
    offset: u64,
}

impl InstructionLocation {
    /// The contract of the location.
    pub closed spec fn spec_context(&self) -> Option<ContractId> {
        self.context
    }

    /// The offset of the location.
    pub closed spec fn spec_offset(&self) -> u64 {
        self.offset
    }

    /// The location at `offset` in the code of `context`.
    pub fn new(context: Option<ContractId>, offset: u64) -> (r: Self)
        ensures
            r.spec_context() == context,
            r.spec_offset() == offset,
    {
        InstructionLocation { context, offset }
    }

    /// The contract of the location, if any.
    pub fn context(&self) -> (r: Option<ContractId>)
        ensures
            r == self.spec_context(),
    {
        self.context
    }

    /// The offset from the start of the running code.
    pub fn offset(&self) -> (r: u64)
        ensures
            r == self.spec_offset(),
    {
        self.offset
    }
}

} // verus!
