use crate::error::{BugVariant, PanicOrBug, PanicReason, SimpleResult};
use crate::interpreter::PanicInstruction;
use crate::run::ScriptExecutionResult;
use vstd::prelude::*;

verus! {

/// What the VM records of a run, in order.
#[derive(Debug, Clone, Copy, PartialEq, Eq)]
pub enum Receipt {
    /// A contract was called.
    Call {
        /// The calling contract, zero when a script calls.
        id: [u8; 32],
        /// The called contract.
        to: [u8; 32],
        /// Coins forwarded.
        amount: u64,
        /// The forwarded asset.
        asset_id: [u8; 32],
        /// Gas forwarded.
        gas: u64,
        /// First call parameter.
        param1: u64,
        /// Second call parameter.
        param2: u64,
        /// Program counter after the call.
        pc: u64,
        /// Start of the called code.
        is: u64,
    },
    /// A context returned a word.
    Return {
        /// The returning contract, zero for a script.
        id: [u8; 32],
        /// The returned word.
        val: u64,
        /// Program counter of the return.
        pc: u64,
        /// Start of the running code.
        is: u64,
    },
    /// A context reverted.
    Revert {
        /// The reverting contract, zero for a script.
        id: [u8; 32],
        /// The revert value.
        ra: u64,
        /// Program counter of the revert.
        pc: u64,
        /// Start of the running code.
        is: u64,
    },
    /// An instruction panicked.
    Panic {
        /// The contract that panicked, zero for a script.
        id: [u8; 32],
        /// The reason and the instruction.
        reason: PanicInstruction,
        /// Program counter of the panic.
        pc: u64,
        /// Start of the running code.
        is: u64,
        /// The contract that was missing from the inputs, if that caused the panic.
        contract_id: Option<[u8; 32]>,
    },
    /// The script ended.
    ScriptResult {
        /// How it ended.
        result: ScriptExecutionResult,
        /// Gas that it used.
        gas_used: u64,
    },
}

/// The largest number of receipts of a run.
pub const MAX_RECEIPTS: usize = 65535;

/// Why a receipt cannot be added to `len` receipts, if it cannot: the list is full,
/// or the last slot is kept for the script result and the one before it for a panic.
pub open spec fn push_refusal(len: int, r: Receipt) -> Option<PanicOrBug> {
    if len >= MAX_RECEIPTS {
        Some(PanicOrBug::Bug(BugVariant::ReceiptsCtxFull))
    } else if (len == MAX_RECEIPTS - 1 && !(r is ScriptResult))
        || (len == MAX_RECEIPTS - 2 && !(r is ScriptResult || r is Panic)) {
        Some(PanicOrBug::Panic(PanicReason::TooManyReceipts))
    } else {
        None
    }
}

/// A prefix of a prefix is a prefix.
pub proof fn lemma_prefix_trans(a: Seq<Receipt>, b: Seq<Receipt>, c: Seq<Receipt>)
    requires
        a.is_prefix_of(b),
        b.is_prefix_of(c),
    ensures
        a.is_prefix_of(c),
{
    assert(a =~= c.subrange(0, a.len() as int)) by {
        assert(b =~= c.subrange(0, b.len() as int));
        assert(a =~= b.subrange(0, a.len() as int));
    }
}

/// A sequence is a prefix of itself with one more receipt.
pub proof fn lemma_prefix_push(a: Seq<Receipt>, x: Receipt)
    ensures
        a.is_prefix_of(a.push(x)),
        a.is_prefix_of(a),
{
    assert(a =~= a.push(x).subrange(0, a.len() as int));
    assert(a =~= a.subrange(0, a.len() as int));
}

/// Why a receipt other than a panic or a script result cannot be added to `len`
/// receipts, as `push_refusal` says of such receipts.
pub open spec fn plain_push_refusal(len: int) -> Option<PanicOrBug> {
    if len >= MAX_RECEIPTS {
        Some(PanicOrBug::Bug(BugVariant::ReceiptsCtxFull))
    } else if len >= MAX_RECEIPTS - 2 {
        Some(PanicOrBug::Panic(PanicReason::TooManyReceipts))
    } else {
        None
    }
}

/// The receipts of a run, in order.
#[derive(Debug, Clone)]
pub struct ReceiptsCtx {
    receipts: Vec<Receipt>,
}

impl View for ReceiptsCtx {
    type V = Seq<Receipt>;

    closed spec fn view(&self) -> Seq<Receipt> {
        self.receipts@
    }
}

impl ReceiptsCtx {
    /// No receipts.
    pub fn new() -> (r: Self)
        ensures
            r@ == Seq::<Receipt>::empty(),
    {
        ReceiptsCtx { receipts: Vec::new() }
    }

    /// Adds `receipt` at the end, unless `push_refusal` refuses it.
    pub fn push(&mut self, receipt: Receipt) -> (r: SimpleResult<()>)
        ensures
            match push_refusal(old(self)@.len() as int, receipt) {
                Some(e) => r == Err::<(), PanicOrBug>(e) && final(self)@ == old(self)@,
                None => r == Ok::<(), PanicOrBug>(()) && final(self)@ == old(self)@.push(receipt),
            },
    {
        let len = self.receipts.len();
        if len >= MAX_RECEIPTS {
            return Err(PanicOrBug::Bug(BugVariant::ReceiptsCtxFull));
        }
        let is_result = match receipt {
            Receipt::ScriptResult { .. } => true,
            _ => false,
        };
        let is_panic = match receipt {
            Receipt::Panic { .. } => true,
            _ => false,
        };
        if (len == MAX_RECEIPTS - 1 && !is_result) || (len == MAX_RECEIPTS - 2 && !(is_result || is_panic)) {
            return Err(PanicOrBug::Panic(PanicReason::TooManyReceipts));
        }
        self.receipts.push(receipt);
        Ok(())
    }

    /// The receipts.
    pub fn as_slice(&self) -> (r: &[Receipt])
        ensures
            r@ == self@,
    {
        self.receipts.as_slice()
    }

    /// How many receipts there are.
    pub fn len(&self) -> (r: usize)
        ensures
            r == self@.len(),
    {
        self.receipts.len()
    }

    /// Removes every receipt.
    pub fn clear(&mut self)
        ensures
            final(self)@ == Seq::<Receipt>::empty(),
    {
        self.receipts.clear();
    }
}

} // verus!
