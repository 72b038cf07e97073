use crate::bytes::{law_word_be_roundtrip, word_be_bytes, word_from_be, word_from_be_bytes, word_to_be_bytes};
use crate::consts::{
    REG_BAL, REG_CGAS, REG_ERR, REG_FLAG, REG_OF, REG_FP, REG_GGAS, REG_HP, REG_IS, REG_PC, REG_RET, REG_RETL, REG_SP, REG_SSP,
    VM_MAX_RAM, VM_REGISTER_COUNT,
};
use crate::error::{BugVariant, PanicOrBug, PanicReason, SimpleResult};
use crate::flow::JumpArgs;
use crate::gas::{gas_charge_inner, DependentCost};
use crate::internal::{inc_pc_result, set_flag};
use crate::memory::{zeros, MemoryInstance, MemoryModel};
use crate::metadata::{get_transaction_field, gtf_value_spec, TxFields};
use crate::memory_ops::{
    finish_pc, first_byte, load_byte, load_outcome, load_word, memclear, memcopy, memcopy_outcome, memeq, memeq_outcome,
    pop_outcome, pop_selected_registers, push_outcome, push_selected_registers, sat_addr, stack_move, store_byte,
    store_outcome, store_word, ProgramRegisters, ProgramRegistersSegment,
};
use crate::ownership::OwnershipRegisters;
use crate::predicate::RuntimePredicate;
use crate::receipts::{lemma_prefix_push, plain_push_refusal, push_refusal, Receipt, ReceiptsCtx};
use vstd::prelude::*;

verus! {

/// What the VM is running.
#[derive(Debug, Clone, PartialEq, Eq)]
pub enum Context {
    /// Estimating the gas of a predicate.
    PredicateEstimation {
        /// The predicate.
        program: RuntimePredicate,
    },
    /// Checking a predicate.
    PredicateVerification {
        /// The predicate.
        program: RuntimePredicate,
    },
    /// Running a script.
    Script {
        /// Height of the block.
        block_height: u32,
    },
    /// Running a contract called from a script.
    Call {
        /// Height of the block.
        block_height: u32,
    },
    /// Not initialized.
    NotInitialized,
}

impl Context {
    /// Whether a predicate is running.
    pub fn is_predicate(&self) -> (r: bool)
        ensures
            r == (self is PredicateEstimation || self is PredicateVerification),
    {
        match self {
            Context::PredicateEstimation { .. } | Context::PredicateVerification { .. } => true,
            _ => false,
        }
    }

    /// Whether a called contract is running.
    pub fn is_internal(&self) -> (r: bool)
        ensures
            r == (self is Call),
    {
        match self {
            Context::Call { .. } => true,
            _ => false,
        }
    }

    /// Whether a predicate or a script is running.
    pub fn is_external(&self) -> (r: bool)
        ensures
            r == (self is PredicateEstimation || self is PredicateVerification || self is Script),
    {
        match self {
            Context::PredicateEstimation { .. } | Context::PredicateVerification { .. } | Context::Script { .. } => true,
            _ => false,
        }
    }

    /// What runs after the frame pointer becomes `fp`: a script enters a call when
    /// the frame pointer leaves zero, and a call goes back to its script when it
    /// returns to zero.
    pub open spec fn spec_after_frame_pointer(self, fp: u64) -> Context {
        match self {
            Context::Script { block_height } => if fp != 0 { Context::Call { block_height } } else { self },
            Context::Call { block_height } => if fp == 0 { Context::Script { block_height } } else { self },
            _ => self,
        }
    }

    /// Updates what runs after the frame pointer becomes `fp`.
    pub fn update_from_frame_pointer(&mut self, fp: u64)
        ensures
            *final(self) == old(self).spec_after_frame_pointer(fp),
    {
        match *self {
            Context::Script { block_height } => {
                if fp != 0 {
                    *self = Context::Call { block_height };
                }
            },
            Context::Call { block_height } => {
                if fp == 0 {
                    *self = Context::Script { block_height };
                }
            },
            _ => {},
        }
    }

    /// The block height of a script or call.
    pub fn block_height(&self) -> (r: Option<u32>)
        ensures
            r == match *self {
                Context::Script { block_height } => Some(block_height),
                Context::Call { block_height } => Some(block_height),
                _ => None::<u32>,
            },
    {
        match self {
            Context::Script { block_height } | Context::Call { block_height } => Some(*block_height),
            _ => None,
        }
    }
}

/// A panic of an instruction: its reason and the raw instruction word.
#[derive(Debug, Clone, Copy, PartialEq, Eq)]
pub struct PanicInstruction {
    /// Why the instruction panicked.
    pub reason: PanicReason,
    /// The raw instruction.
    pub instruction: u32,
}

/// Sets the frame pointer register to `fp` and updates what runs accordingly.
pub fn set_frame_pointer(context: &mut Context, register: &mut u64, fp: u64)
    ensures
        *final(context) == old(context).spec_after_frame_pointer(fp),
        *final(register) == fp,
{
    context.update_from_frame_pointer(fp);
    *register = fp;
}

/// The contract that is running: in a call, the 32 bytes at the frame pointer;
/// otherwise none.
pub fn current_contract(context: &Context, fp: u64, memory: &MemoryInstance) -> (r: Result<Option<[u8; 32]>, PanicReason>)
    requires
        memory.inv(),
    ensures
        !(context is Call) ==> r == Ok::<Option<[u8; 32]>, PanicReason>(None),
        context is Call ==> match memory@.verify(fp as int, 32) {
            Err(e) => r == Err::<Option<[u8; 32]>, PanicReason>(e),
            Ok(_) => r is Ok && r->Ok_0 is Some && r->Ok_0->0@ == memory@.read(fp as int, fp + 32),
        },
{
    if context.is_internal() {
        let bytes: [u8; 32] = memory.read_bytes(fp)?;
        Ok(Some(bytes))
    } else {
        Ok(None)
    }
}

/// The contract that is running, which must be a called contract.
pub fn internal_contract(context: &Context, fp: u64, memory: &MemoryInstance) -> (r: Result<[u8; 32], PanicReason>)
    requires
        memory.inv(),
    ensures
        !(context is Call) ==> r == Err::<[u8; 32], PanicReason>(PanicReason::ExpectedInternalContext),
        context is Call ==> match memory@.verify(fp as int, 32) {
            Err(e) => r == Err::<[u8; 32], PanicReason>(e),
            Ok(_) => r is Ok && r->Ok_0@ == memory@.read(fp as int, fp + 32),
        },
{
    match current_contract(context, fp, memory)? {
        Some(c) => Ok(c),
        None => Err(PanicReason::ExpectedInternalContext),
    }
}

/// The identifier of the transaction: the first 32 bytes of memory.
pub fn tx_id(memory: &MemoryInstance) -> (r: [u8; 32])
    requires
        memory.inv(),
        memory@.accessible(0, 32),
    ensures
        r@ == memory@.read(0, 32),
{
    match memory.read_bytes(0u64) {
        Ok(b) => b,
        Err(_) => [0u8; 32],
    }
}

/// The registers after charging `gas` from the context gas and the global gas, with
/// the result of the charge; the charge is that of `gas_charge_inner`.
pub open spec fn charged(regs: Seq<u64>, gas: int) -> (Seq<u64>, SimpleResult<()>) {
    let cgas = regs[REG_CGAS as int];
    let ggas = regs[REG_GGAS as int];
    let bug = Err::<(), PanicOrBug>(PanicOrBug::Bug(BugVariant::GlobalGasLessThanContext));
    let (c2, g2, res) = if gas > cgas {
        (0int, if ggas < cgas { 0int } else { ggas - cgas }, Err::<(), PanicOrBug>(PanicOrBug::Panic(PanicReason::OutOfGas)))
    } else {
        if ggas < gas { (cgas - gas, ggas as int, bug) } else { (cgas - gas, ggas - gas, Ok::<(), PanicOrBug>(())) }
    };
    (regs.update(REG_CGAS as int, c2 as u64).update(REG_GGAS as int, g2 as u64), res)
}

/// The registers after the jump `args` from the program counter, with its result.
pub open spec fn jumped(regs: Seq<u64>, args: JumpArgs) -> (Seq<u64>, SimpleResult<()>) {
    let pc = regs[REG_PC as int];
    let is = regs[REG_IS as int];
    if !args.condition {
        match crate::internal::pc_advanced(pc) {
            Ok(p) => (regs.update(REG_PC as int, p), Ok::<(), PanicOrBug>(())),
            Err(e) => (regs, Err::<(), PanicOrBug>(PanicOrBug::Panic(e))),
        }
    } else {
        match args.target(is, pc) {
            Ok(t) => if t >= VM_MAX_RAM {
                (regs, Err::<(), PanicOrBug>(PanicOrBug::Panic(PanicReason::MemoryOverflow)))
            } else {
                (regs.update(REG_PC as int, t as u64), Ok::<(), PanicOrBug>(()))
            },
            Err(e) => (regs, Err::<(), PanicOrBug>(PanicOrBug::Panic(e))),
        }
    }
}

/// The registers after setting the flags to `a`, with the result.
pub open spec fn flagged(regs: Seq<u64>, a: u64) -> (Seq<u64>, SimpleResult<()>) {
    if a & 3u64 != a {
        (regs, Err::<(), PanicOrBug>(PanicOrBug::Panic(PanicReason::InvalidFlags)))
    } else {
        match crate::internal::pc_advanced(regs[REG_PC as int]) {
            Ok(p) => (regs.update(REG_FLAG as int, a).update(REG_PC as int, p), Ok::<(), PanicOrBug>(())),
            Err(e) => (regs.update(REG_FLAG as int, a), Err::<(), PanicOrBug>(PanicOrBug::Panic(e))),
        }
    }
}

/// The registers, memory and result after moving the stack pointer to `new_sp`, or
/// after an overflow of the new stack pointer (`None`); the program counter advances
/// when the move succeeds.
pub open spec fn stack_moved(regs: Seq<u64>, m: MemoryModel, new_sp: Option<u64>) -> (Seq<u64>, MemoryModel, SimpleResult<()>) {
    match new_sp {
        None => (regs, m, Err::<(), PanicOrBug>(PanicOrBug::Panic(PanicReason::MemoryOverflow))),
        Some(n) => {
            let (s, m2, res) = stack_move(regs[REG_SP as int], regs[REG_SSP as int], regs[REG_HP as int], n, m);
            let regs2 = regs.update(REG_SP as int, s);
            match res {
                Err(e) => (regs2, m2, Err::<(), PanicOrBug>(PanicOrBug::Panic(e))),
                Ok(()) => {
                    let (p, r) = finish_pc(regs[REG_PC as int]);
                    (regs2.update(REG_PC as int, p), m2, r)
                },
            }
        },
    }
}

/// Entering a call from a script and coming back to frame pointer zero gives back
/// the script, with its block height.
pub proof fn law_frame_pointer_round_trip(context: Context, fp: u64)
    requires
        context is Script,
        fp != 0,
    ensures
        context.spec_after_frame_pointer(fp) is Call,
        context.spec_after_frame_pointer(fp).spec_after_frame_pointer(0) == context,
{
}

/// A move of the stack pointer that succeeds leaves it between the stack start and
/// the heap pointer, and changes no register but the stack pointer and the program
/// counter; one that fails changes no register but, after the new stack pointer was
/// accepted, the stack pointer.
pub proof fn law_stack_pointer_bounds(regs: Seq<u64>, m: MemoryModel, new_sp: Option<u64>)
    requires
        regs.len() == 64,
    ensures
        ({
            let t = stack_moved(regs, m, new_sp);
            &&& t.0.len() == 64
            &&& t.2 is Ok ==> regs[REG_SSP as int] <= t.0[REG_SP as int] <= regs[REG_HP as int]
            &&& forall|i: int| 0 <= i < 64 && i != REG_SP && i != REG_PC ==> t.0[i] == regs[i]
        }),
{
}

/// A jump that succeeds changes no register but the program counter, and one that is
/// taken lands inside the VM memory; a jump that fails changes no register.
pub proof fn law_jump_lands_in_memory(regs: Seq<u64>, args: JumpArgs)
    requires
        regs.len() == 64,
    ensures
        ({
            let (after, r) = jumped(regs, args);
            &&& forall|i: int| 0 <= i < 64 && i != REG_PC ==> after[i] == regs[i]
            &&& r is Ok && args.condition ==> after[REG_PC as int] < VM_MAX_RAM
            &&& r is Err ==> after == regs
        }),
{
}

/// The registers after writing `val` to register `reg` as a user write: the zero
/// register discards the write, the other reserved registers refuse it.
pub open spec fn user_reg_set(regs: Seq<u64>, reg: int, val: u64) -> (Seq<u64>, SimpleResult<()>) {
    if reg == 0 {
        (regs, Ok(()))
    } else if reg < 16 {
        (regs, Err(PanicOrBug::Panic(PanicReason::ReservedRegisterNotWritable)))
    } else {
        (regs.update(reg, val), Ok(()))
    }
}

/// The registers after an arithmetic instruction with the full result `r` for
/// register `ra`: the low word goes to `ra` and the high word to the overflow
/// register; a result beyond a word panics with `ArithmeticOverflow` unless the
/// wrapping flag is set, and a reserved destination is refused first.
pub open spec fn alu_overflowed(regs: Seq<u64>, ra: int, r: u128) -> (Seq<u64>, SimpleResult<()>) {
    if ra < 16 {
        (regs, Err(PanicOrBug::Panic(PanicReason::ReservedRegisterNotWritable)))
    } else if r > u64::MAX && regs[REG_FLAG as int] & 2 == 0 {
        (regs, Err(PanicOrBug::Panic(PanicReason::ArithmeticOverflow)))
    } else {
        let (p, res) = finish_pc(regs[REG_PC as int]);
        (regs.update(REG_OF as int, (r >> 64u128) as u64).update(REG_ERR as int, 0).update(ra, r as u64)
            .update(REG_PC as int, p), res)
    }
}

/// An arithmetic result that is kept loses nothing: the destination holds its low
/// word and the overflow register its high word, and the error register is clear.
pub proof fn law_alu_keeps_the_full_result(regs: Seq<u64>, ra: int, r: u128)
    requires
        regs.len() == 64,
        16 <= ra < 64,
        r <= u64::MAX || regs[REG_FLAG as int] & 2 != 0,
    ensures
        ({
            let after = alu_overflowed(regs, ra, r).0;
            &&& after[ra] + after[REG_OF as int] * 0x1_0000_0000_0000_0000 == r
            &&& after[REG_ERR as int] == 0
        }),
{
    let lo = r as u64;
    let hi = (r >> 64u128) as u64;
    assert(hi as u128 * 0x1_0000_0000_0000_0000u128 + lo as u128 == r) by (bit_vector)
        requires
            lo == r as u64,
            hi == (r >> 64u128) as u64,
    ;
}

/// The registers after an instruction that sets register `ra` to `v` and clears the
/// overflow and error registers.
pub open spec fn alu_set_to(regs: Seq<u64>, ra: int, v: u64) -> (Seq<u64>, SimpleResult<()>) {
    if ra < 16 {
        (regs, Err(PanicOrBug::Panic(PanicReason::ReservedRegisterNotWritable)))
    } else {
        let (p, res) = finish_pc(regs[REG_PC as int]);
        (regs.update(REG_OF as int, 0).update(REG_ERR as int, 0).update(ra, v).update(REG_PC as int, p), res)
    }
}

/// The registers after an instruction that may fail arithmetically (`err`): a failure
/// panics with `ArithmeticError` unless the unsafe-math flag is set, in which case
/// register `ra` becomes zero and the error register one; otherwise `ra` becomes `v`.
pub open spec fn alu_checked(regs: Seq<u64>, ra: int, v: u64, err: bool) -> (Seq<u64>, SimpleResult<()>) {
    if ra < 16 {
        (regs, Err(PanicOrBug::Panic(PanicReason::ReservedRegisterNotWritable)))
    } else if err && regs[REG_FLAG as int] & 1 == 0 {
        (regs, Err(PanicOrBug::Panic(PanicReason::ArithmeticError)))
    } else {
        let (p, res) = finish_pc(regs[REG_PC as int]);
        (regs.update(REG_OF as int, 0).update(REG_ERR as int, if err { 1 } else { 0 })
            .update(ra, if err { 0 } else { v }).update(REG_PC as int, p), res)
    }
}

/// The registers after clearing the overflow and error registers.
pub open spec fn alu_cleared(regs: Seq<u64>) -> (Seq<u64>, SimpleResult<()>) {
    let (p, res) = finish_pc(regs[REG_PC as int]);
    (regs.update(REG_OF as int, 0).update(REG_ERR as int, 0).update(REG_PC as int, p), res)
}

/// The registers, frames, context, receipts and result after leaving the running
/// context with `receipt`: a call gives the caller its registers back (as
/// `returned_registers` says) and drops its frame, the receipt is added (as
/// `push_refusal` allows), and the program counter advances.
pub open spec fn left_context(
    regs: Seq<u64>,
    frames: Seq<CallFrame>,
    context: Context,
    receipts: Seq<Receipt>,
    receipt: Receipt,
) -> (Seq<u64>, Seq<CallFrame>, Context, Seq<Receipt>, SimpleResult<()>) {
    let back = if frames.len() == 0 { Some(regs) } else { returned_registers(regs, frames.last().spec_registers()) };
    let frames2 = if frames.len() == 0 { frames } else { frames.drop_last() };
    match back {
        None => (regs, frames2, context, receipts, Err(PanicOrBug::Bug(BugVariant::ContextGasOverflow))),
        Some(r2) => {
            let context2 = if frames.len() == 0 {
                context
            } else {
                context.spec_after_frame_pointer(frames.last().spec_registers()[REG_FP as int])
            };
            match push_refusal(receipts.len() as int, receipt) {
                Some(e) => (r2, frames2, context2, receipts, Err(e)),
                None => {
                    let (p, res) = finish_pc(r2[REG_PC as int]);
                    (r2.update(REG_PC as int, p), frames2, context2, receipts.push(receipt), res)
                },
            }
        },
    }
}

/// The id that receipts give the running context: in a call, the 32 bytes at the
/// frame pointer; otherwise zero.
pub open spec fn context_id(context: Context, m: MemoryModel, fp: u64) -> Seq<u8> {
    if context is Call { m.read(fp as int, fp + 32) } else { Seq::new(32, |i: int| 0u8) }
}

/// Size of a serialized call frame: the called contract, the forwarded asset, the
/// saved registers, the code size and the two call parameters.
pub const CALL_FRAME_SIZE: u64 = 600;

/// Size of the call parameters in memory: the called contract and two words.
pub const CALL_PARAMS_SIZE: u64 = 48;

/// What a call takes from memory and registers before the called contract's code is
/// looked up: the called contract and the two call parameters, the forwarded asset,
/// the forwarded coins and gas, and the contract that calls, if one does.
#[derive(Debug, Clone, Copy, PartialEq, Eq)]
pub struct CallRequest {
    /// The called contract.
    pub to: [u8; 32],
    /// First call parameter.
    pub a: u64,
    /// Second call parameter.
    pub b: u64,
    /// The forwarded asset.
    pub asset_id: [u8; 32],
    /// Coins forwarded.
    pub coins: u64,
    /// Gas forwarded at most.
    pub gas: u64,
    /// The calling contract; none when a script calls.
    pub source: Option<[u8; 32]>,
}

/// `len` rounded up to a whole number of words, if that fits.
pub open spec fn padded_len(len: u64) -> Option<u64> {
    let p = if len % 8 == 0 { len as int } else { len + (8 - len % 8) };
    if p <= u64::MAX { Some(p as u64) } else { None }
}

/// The size of the code of a called contract padded to whole words, and the space
/// the call takes on the stack: its frame and the padded code.
pub open spec fn call_frame_size_spec(code_size: u64) -> SimpleResult<(u64, u64)> {
    match padded_len(code_size) {
        None => Err(PanicOrBug::Panic(PanicReason::MemoryOverflow)),
        Some(p) => if p + CALL_FRAME_SIZE > u64::MAX {
            Err(PanicOrBug::Bug(BugVariant::CodeSizeOverflow))
        } else {
            Ok((p, (p + CALL_FRAME_SIZE) as u64))
        },
    }
}

/// The padded code size and the stack space of a call to code of `code_size` bytes.
pub fn call_frame_size(code_size: u64) -> (r: SimpleResult<(u64, u64)>)
    ensures
        r == call_frame_size_spec(code_size),
{
    let rem = code_size % 8;
    let padded = if rem == 0 {
        code_size
    } else {
        match code_size.checked_add(8 - rem) {
            Some(p) => p,
            None => return Err(PanicOrBug::Panic(PanicReason::MemoryOverflow)),
        }
    };
    match padded.checked_add(CALL_FRAME_SIZE) {
        Some(total) => Ok((padded, total)),
        None => Err(PanicOrBug::Bug(BugVariant::CodeSizeOverflow)),
    }
}

/// The gas that a call forwards: what it asks for, at most the context gas.
pub open spec fn forwarded_gas(cgas: u64, asked: u64) -> u64 {
    if asked < cgas { asked } else { cgas }
}

/// The registers on entering a call that forwards `coins` and at most `gas`, with a
/// frame of `total` bytes whose code starts at the frame pointer plus the frame size,
/// the stack grown over the frame, and the outcome.
pub open spec fn entered_call(regs: Seq<u64>, m: MemoryModel, coins: u64, gas: u64, total: u64)
    -> (Seq<u64>, MemoryModel, SimpleResult<()>) {
    let fwd = forwarded_gas(regs[REG_CGAS as int], gas);
    let regs1 = regs.update(REG_CGAS as int, (regs[REG_CGAS as int] - fwd) as u64);
    let old_sp = regs[REG_SP as int];
    let new_sp = if old_sp + total > u64::MAX { u64::MAX } else { (old_sp + total) as u64 };
    match m.grow_stack(new_sp as int) {
        Err(e) => (regs1, m, Err(PanicOrBug::Panic(e))),
        Ok(m2) => {
            let code_start = (old_sp + CALL_FRAME_SIZE) as u64;
            (regs1.update(REG_SP as int, new_sp).update(REG_SSP as int, new_sp).update(REG_FP as int, old_sp)
                .update(REG_PC as int, code_start).update(REG_BAL as int, coins).update(REG_IS as int, code_start)
                .update(REG_CGAS as int, fwd).update(REG_FLAG as int, 0), m2, Ok(()))
        },
    }
}

/// The registers on returning from a call to a caller that saved `saved`: the
/// caller's registers, except the context gas, which gets back what the caller kept,
/// and the global gas, the return value and length and the heap pointer, which keep
/// their values; `None` when the context gas overflows.
pub open spec fn returned_registers(regs: Seq<u64>, saved: Seq<u64>) -> Option<Seq<u64>> {
    let cgas = regs[REG_CGAS as int] + saved[REG_CGAS as int];
    if cgas > u64::MAX {
        None
    } else {
        Some(saved.update(REG_CGAS as int, cgas as u64)
            .update(REG_GGAS as int, regs[REG_GGAS as int])
            .update(REG_RET as int, regs[REG_RET as int])
            .update(REG_RETL as int, regs[REG_RETL as int])
            .update(REG_HP as int, regs[REG_HP as int]))
    }
}

/// A call that returns gives the caller back its registers, except that the context
/// gas is what the caller kept plus what the callee did not spend of the forwarded
/// gas, and the global gas, the return value and length and the heap pointer are
/// those at the return.
pub proof fn law_call_return_restores(regs: Seq<u64>, m: MemoryModel, coins: u64, gas: u64, total: u64, end: Seq<u64>)
    requires
        regs.len() == 64,
        end.len() == 64,
        entered_call(regs, m, coins, gas, total).2 is Ok,
        end[REG_CGAS as int] <= forwarded_gas(regs[REG_CGAS as int], gas),
    ensures
        ({
            let fwd = forwarded_gas(regs[REG_CGAS as int], gas);
            let saved = regs.update(REG_CGAS as int, (regs[REG_CGAS as int] - fwd) as u64);
            returned_registers(end, saved) == Some(regs
                .update(REG_CGAS as int, (regs[REG_CGAS as int] - fwd + end[REG_CGAS as int]) as u64)
                .update(REG_GGAS as int, end[REG_GGAS as int])
                .update(REG_RET as int, end[REG_RET as int])
                .update(REG_RETL as int, end[REG_RETL as int])
                .update(REG_HP as int, end[REG_HP as int]))
        }),
{
    let fwd = forwarded_gas(regs[REG_CGAS as int], gas);
    let saved = regs.update(REG_CGAS as int, (regs[REG_CGAS as int] - fwd) as u64);
    assert(returned_registers(end, saved)->0 =~= regs
        .update(REG_CGAS as int, (regs[REG_CGAS as int] - fwd + end[REG_CGAS as int]) as u64)
        .update(REG_GGAS as int, end[REG_GGAS as int])
        .update(REG_RET as int, end[REG_RET as int])
        .update(REG_RETL as int, end[REG_RETL as int])
        .update(REG_HP as int, end[REG_HP as int]));
}

/// The big-endian encodings of `words`, one after another.
pub open spec fn words_be(words: Seq<u64>) -> Seq<u8>
    decreases words.len(),
{
    if words.len() == 0 {
        Seq::empty()
    } else {
        words_be(words.drop_last()) + word_be_bytes(words.last())
    }
}

/// The encoded words take eight bytes each.
pub proof fn lemma_words_be_len(words: Seq<u64>)
    ensures
        words_be(words).len() == 8 * words.len(),
    decreases words.len(),
{
    if words.len() > 0 {
        lemma_words_be_len(words.drop_last());
        law_word_be_roundtrip(words.last());
    }
}

/// The serialized call frame: the called contract, the forwarded asset, the saved
/// registers, the padded code size and the two call parameters, words big-endian.
pub open spec fn call_frame_bytes(to: Seq<u8>, asset_id: Seq<u8>, regs: Seq<u64>, code_size: u64, a: u64, b: u64) -> Seq<u8> {
    to + asset_id + words_be(regs) + word_be_bytes(code_size) + word_be_bytes(a) + word_be_bytes(b)
}

/// What a call saves: the called contract, the forwarded asset, the caller's
/// registers, to be restored on return, the padded size of the called code and the
/// two call parameters.
#[derive(Debug, Clone, Copy)]
pub struct CallFrame {
    to: [u8; 32],
    asset_id: [u8; 32],
    registers: [u64; VM_REGISTER_COUNT],
    code_size: u64,
    a: u64,
    b: u64,
}

impl CallFrame {
    /// The called contract.
    pub closed spec fn spec_to(&self) -> [u8; 32] {
        self.to
    }

    /// The forwarded asset.
    pub closed spec fn spec_asset_id(&self) -> [u8; 32] {
        self.asset_id
    }

    /// The saved registers.
    pub closed spec fn spec_registers(&self) -> Seq<u64> {
        self.registers@
    }

    /// The padded size of the called code.
    pub closed spec fn spec_code_size(&self) -> u64 {
        self.code_size
    }

    /// The first call parameter.
    pub closed spec fn spec_a(&self) -> u64 {
        self.a
    }

    /// The second call parameter.
    pub closed spec fn spec_b(&self) -> u64 {
        self.b
    }

    /// The serialized frame.
    pub open spec fn spec_bytes(&self) -> Seq<u8> {
        call_frame_bytes(self.spec_to()@, self.spec_asset_id()@, self.spec_registers(), self.spec_code_size(),
            self.spec_a(), self.spec_b())
    }

    /// A frame with the given parts.
    pub fn new(to: [u8; 32], asset_id: [u8; 32], registers: [u64; VM_REGISTER_COUNT], code_size: u64, a: u64, b: u64) -> (r: Self)
        ensures
            r.spec_to() == to,
            r.spec_asset_id() == asset_id,
            r.spec_registers() == registers@,
            r.spec_code_size() == code_size,
            r.spec_a() == a,
            r.spec_b() == b,
    {
        CallFrame { to, asset_id, registers, code_size, a, b }
    }

    /// The saved registers.
    pub fn registers(&self) -> (r: &[u64; VM_REGISTER_COUNT])
        ensures
            r@ == self.spec_registers(),
    {
        &self.registers
    }

    /// The called contract.
    pub fn to(&self) -> (r: [u8; 32])
        ensures
            r == self.spec_to(),
    {
        self.to
    }

    /// The forwarded asset.
    pub fn asset_id(&self) -> (r: [u8; 32])
        ensures
            r == self.spec_asset_id(),
    {
        self.asset_id
    }

    /// The padded size of the called code.
    pub fn code_size(&self) -> (r: u64)
        ensures
            r == self.spec_code_size(),
    {
        self.code_size
    }

    /// The first call parameter.
    pub fn a(&self) -> (r: u64)
        ensures
            r == self.spec_a(),
    {
        self.a
    }

    /// The second call parameter.
    pub fn b(&self) -> (r: u64)
        ensures
            r == self.spec_b(),
    {
        self.b
    }

    /// The serialized frame, 600 bytes.
    pub fn to_bytes(&self) -> (r: Vec<u8>)
        ensures
            r@ == self.spec_bytes(),
            r@.len() == CALL_FRAME_SIZE,
    {
        let mut v: Vec<u8> = Vec::new();
        v.extend_from_slice(self.to.as_slice());
        v.extend_from_slice(self.asset_id.as_slice());
        let ghost regs = self.registers@;
        let mut i: usize = 0;
        proof {
            assert(regs.take(0) =~= Seq::<u64>::empty());
            assert(v@ =~= self.to@ + self.asset_id@ + words_be(regs.take(0)));
        }
        while i < VM_REGISTER_COUNT
            invariant
                i <= VM_REGISTER_COUNT,
                regs == self.registers@,
                regs.len() == 64,
                v@ == self.to@ + self.asset_id@ + words_be(regs.take(i as int)),
            decreases VM_REGISTER_COUNT - i,
        {
            let w = word_to_be_bytes(self.registers[i]);
            v.extend_from_slice(w.as_slice());
            proof {
                assert(regs.take(i + 1).drop_last() =~= regs.take(i as int));
                assert(regs.take(i + 1).last() == regs[i as int]);
                assert(v@ =~= self.to@ + self.asset_id@ + words_be(regs.take(i + 1)));
            }
            i = i + 1;
        }
        proof {
            assert(regs.take(64) =~= regs);
        }
        v.extend_from_slice(word_to_be_bytes(self.code_size).as_slice());
        v.extend_from_slice(word_to_be_bytes(self.a).as_slice());
        v.extend_from_slice(word_to_be_bytes(self.b).as_slice());
        proof {
            lemma_words_be_len(regs);
            law_word_be_roundtrip(self.code_size);
            law_word_be_roundtrip(self.a);
            law_word_be_roundtrip(self.b);
            assert(v@ =~= self.spec_bytes());
        }
        v
    }
}

/// The trace state used when no trace is kept.
#[derive(Debug, Clone, Copy, Default)]
pub struct NoTrace;

/// The state of the VM that its instructions read and change: the registers, the
/// memory, the call frames, what is running, and a trace state.
#[derive(Debug, Clone)]
pub struct Interpreter<Trace> {
    registers: [u64; VM_REGISTER_COUNT],
    memory: MemoryInstance,
    frames: Vec<CallFrame>,
    context: Context,
    receipts: ReceiptsCtx,
    trace: Trace,
}

/// Hooks run around each instruction, to inspect the VM and update the trace state.
pub trait ExecutionTraceHooks: Clone + Sized {
    /// Runs before each instruction.
    fn before_instruction(vm: &mut Interpreter<Self>);

    /// Runs after each instruction.
    fn after_instruction(vm: &mut Interpreter<Self>);
}

impl ExecutionTraceHooks for NoTrace {
    fn before_instruction(vm: &mut Interpreter<Self>) {
    }

    fn after_instruction(vm: &mut Interpreter<Self>) {
    }
}

impl<Trace> Interpreter<Trace> {
    /// The registers.
    pub closed spec fn spec_registers(&self) -> Seq<u64> {
        self.registers@
    }

    /// The memory.
    pub closed spec fn spec_memory(&self) -> MemoryInstance {
        self.memory
    }

    /// The call frames, innermost last.
    pub closed spec fn spec_frames(&self) -> Seq<CallFrame> {
        self.frames@
    }

    /// What is running.
    pub closed spec fn spec_context(&self) -> Context {
        self.context
    }

    /// The trace state.
    pub closed spec fn spec_trace(&self) -> Trace {
        self.trace
    }

    /// The receipts of the run.
    pub closed spec fn spec_receipts(&self) -> Seq<Receipt> {
        self.receipts@
    }

    /// The memory is well formed.
    pub open spec fn inv(&self) -> bool {
        self.spec_memory().inv()
    }

    /// The heap pointer of the calling context, or the memory size at the top level.
    pub open spec fn spec_prev_hp(&self) -> u64 {
        if self.spec_frames().len() == 0 {
            VM_MAX_RAM
        } else {
            self.spec_frames().last().spec_registers()[REG_HP as int]
        }
    }

    /// There are 64 registers.
    pub proof fn lemma_register_count(&self)
        ensures
            self.spec_registers().len() == 64,
    {
    }

    /// The ownership registers of the running context.
    pub open spec fn ownership_of(&self) -> OwnershipRegisters {
        OwnershipRegisters {
            sp: self.spec_registers()[REG_SP as int],
            ssp: self.spec_registers()[REG_SSP as int],
            hp: self.spec_registers()[REG_HP as int],
            prev_hp: self.spec_prev_hp(),
        }
    }

    /// A VM with the given state and no call frames.
    pub fn new(registers: [u64; VM_REGISTER_COUNT], memory: MemoryInstance, context: Context, trace: Trace) -> (r: Self)
        ensures
            r.spec_registers() == registers@,
            r.spec_memory() == memory,
            r.spec_frames() == Seq::<CallFrame>::empty(),
            r.spec_context() == context,
            r.spec_trace() == trace,
            r.spec_receipts() == Seq::<Receipt>::empty(),
    {
        Interpreter { registers, memory, frames: Vec::new(), context, receipts: ReceiptsCtx::new(), trace }
    }

    /// Enters a call: saves the frame.
    pub fn push_frame(&mut self, frame: CallFrame)
        ensures
            final(self).spec_frames() == old(self).spec_frames().push(frame),
            final(self).spec_registers() == old(self).spec_registers(),
            final(self).spec_memory() == old(self).spec_memory(),
            final(self).spec_context() == old(self).spec_context(),
            final(self).spec_trace() == old(self).spec_trace(),
            final(self).spec_receipts() == old(self).spec_receipts(),
    {
        self.frames.push(frame);
    }

    /// The registers.
    pub fn registers(&self) -> (r: &[u64; VM_REGISTER_COUNT])
        ensures
            r@ == self.spec_registers(),
    {
        &self.registers
    }

    /// The memory.
    pub fn memory(&self) -> (r: &MemoryInstance)
        ensures
            *r == self.spec_memory(),
    {
        &self.memory
    }

    /// What is running.
    pub fn context(&self) -> (r: &Context)
        ensures
            *r == self.spec_context(),
    {
        &self.context
    }

    /// Whether a predicate is running.
    pub fn is_predicate(&self) -> (r: bool)
        ensures
            r == (self.spec_context() is PredicateEstimation || self.spec_context() is PredicateVerification),
    {
        self.context.is_predicate()
    }

    /// The trace state.
    pub fn trace(&self) -> (r: &Trace)
        ensures
            *r == self.spec_trace(),
    {
        &self.trace
    }

    /// Write access to the trace state.
    pub fn trace_mut(&mut self) -> (r: &mut Trace)
        ensures
            *r == old(self).spec_trace(),
            final(self).spec_trace() == *final(r),
            final(self).spec_registers() == old(self).spec_registers(),
            final(self).spec_memory() == old(self).spec_memory(),
            final(self).spec_frames() == old(self).spec_frames(),
            final(self).spec_context() == old(self).spec_context(),
            final(self).spec_receipts() == old(self).spec_receipts(),
    {
        &mut self.trace
    }

    /// The same VM with another trace state.
    pub fn with_trace_hooks<NewTrace>(self, trace: NewTrace) -> (r: Interpreter<NewTrace>)
        ensures
            r.spec_registers() == self.spec_registers(),
            r.spec_memory() == self.spec_memory(),
            r.spec_frames() == self.spec_frames(),
            r.spec_context() == self.spec_context(),
            r.spec_trace() == trace,
            r.spec_receipts() == self.spec_receipts(),
    {
        Interpreter {
            registers: self.registers,
            memory: self.memory,
            frames: self.frames,
            context: self.context,
            receipts: self.receipts,
            trace,
        }
    }

    /// The global gas left.
    pub fn remaining_gas(&self) -> (r: u64)
        ensures
            r == self.spec_registers()[REG_GGAS as int],
    {
        self.registers[REG_GGAS]
    }

    /// Sets both the global and the context gas.
    pub fn set_gas(&mut self, gas: u64)
        ensures
            final(self).spec_registers() == old(self).spec_registers().update(REG_GGAS as int, gas).update(
                REG_CGAS as int,
                gas,
            ),
            final(self).spec_memory() == old(self).spec_memory(),
            final(self).spec_frames() == old(self).spec_frames(),
            final(self).spec_context() == old(self).spec_context(),
            final(self).spec_trace() == old(self).spec_trace(),
            final(self).spec_receipts() == old(self).spec_receipts(),
    {
        self.registers[REG_GGAS] = gas;
        self.registers[REG_CGAS] = gas;
    }

    /// Charges `gas` from the context and global gas registers, as
    /// `gas_charge_inner` does.
    pub fn gas_charge(&mut self, gas: u64) -> (r: SimpleResult<()>)
        ensures
            final(self).spec_registers() == charged(old(self).spec_registers(), gas as int).0,
            r == charged(old(self).spec_registers(), gas as int).1,
            final(self).spec_memory() == old(self).spec_memory(),
            final(self).spec_frames() == old(self).spec_frames(),
            final(self).spec_context() == old(self).spec_context(),
            final(self).spec_trace() == old(self).spec_trace(),
            final(self).spec_receipts() == old(self).spec_receipts(),
    {
        let mut cgas = self.registers[REG_CGAS];
        let mut ggas = self.registers[REG_GGAS];
        let r = gas_charge_inner(&mut cgas, &mut ggas, gas);
        self.registers[REG_CGAS] = cgas;
        self.registers[REG_GGAS] = ggas;
        r
    }

    /// Charges the cost of `arg` units of `gas_cost`, base included.
    pub fn dependent_gas_charge(&mut self, gas_cost: DependentCost, arg: u64) -> (r: SimpleResult<()>)
        requires
            gas_cost.well_formed(),
        ensures
            final(self).spec_registers() == charged(old(self).spec_registers(), gas_cost.spec_resolve(arg)).0,
            r == charged(old(self).spec_registers(), gas_cost.spec_resolve(arg)).1,
            final(self).spec_memory() == old(self).spec_memory(),
            final(self).spec_frames() == old(self).spec_frames(),
            final(self).spec_context() == old(self).spec_context(),
            final(self).spec_trace() == old(self).spec_trace(),
            final(self).spec_receipts() == old(self).spec_receipts(),
    {
        let cost = gas_cost.resolve(arg);
        self.gas_charge(cost)
    }

    /// Charges the cost of `arg` units of `gas_cost`, base excluded.
    pub fn dependent_gas_charge_without_base(&mut self, gas_cost: DependentCost, arg: u64) -> (r: SimpleResult<()>)
        requires
            gas_cost.well_formed(),
        ensures
            final(self).spec_registers()
                == charged(old(self).spec_registers(), gas_cost.spec_resolve_without_base(arg)).0,
            r == charged(old(self).spec_registers(), gas_cost.spec_resolve_without_base(arg)).1,
            final(self).spec_memory() == old(self).spec_memory(),
            final(self).spec_frames() == old(self).spec_frames(),
            final(self).spec_context() == old(self).spec_context(),
            final(self).spec_trace() == old(self).spec_trace(),
            final(self).spec_receipts() == old(self).spec_receipts(),
    {
        let cost = gas_cost.resolve_without_base(arg);
        self.gas_charge(cost)
    }

    /// The registers that decide which memory the running context may write.
    pub fn ownership_registers(&self) -> (r: OwnershipRegisters)
        ensures
            r.sp == self.spec_registers()[REG_SP as int],
            r.ssp == self.spec_registers()[REG_SSP as int],
            r.hp == self.spec_registers()[REG_HP as int],
            r.prev_hp == self.spec_prev_hp(),
    {
        let prev_hp = match self.frames.last() {
            Some(frame) => frame.registers[REG_HP],
            None => VM_MAX_RAM,
        };
        OwnershipRegisters::from_registers(
            self.registers[REG_SP],
            self.registers[REG_SSP],
            self.registers[REG_HP],
            prev_hp,
        )
    }

    /// The program registers, those from 16 up.
    fn program_registers(&self) -> (r: ProgramRegisters)
        ensures
            r.0@ == self.spec_registers().subrange(16, 64),
    {
        let mut regs = [0u64; 48];
        let mut i: usize = 0;
        while i < 48
            invariant
                i <= 48,
                self.registers@.len() == 64,
                forall|j: int| 0 <= j < i ==> regs@[j] == self.registers@[16 + j],
            decreases 48 - i,
        {
            regs[i] = self.registers[16 + i];
            i = i + 1;
        }
        assert(regs@ =~= self.spec_registers().subrange(16, 64));
        ProgramRegisters(regs)
    }

    /// Pushes the registers of `segment` that `bitmask` selects onto the stack.
    pub fn push_selected_registers(&mut self, segment: ProgramRegistersSegment, bitmask: u32) -> (r: SimpleResult<()>)
        requires
            old(self).inv(),
        ensures
            final(self).inv(),
            ({
                let regs = old(self).spec_registers();
                let (sp, pc, m, res) = push_outcome(regs.subrange(16, 64), segment, bitmask,
                    regs[REG_SP as int], regs[REG_SSP as int], regs[REG_HP as int], regs[REG_PC as int],
                    old(self).spec_memory()@);
                &&& final(self).spec_registers() == regs.update(REG_SP as int, sp).update(REG_PC as int, pc)
                &&& final(self).spec_memory()@ == m
                &&& r == res
            }),
            final(self).spec_frames() == old(self).spec_frames(),
            final(self).spec_context() == old(self).spec_context(),
            final(self).spec_trace() == old(self).spec_trace(),
            final(self).spec_receipts() == old(self).spec_receipts(),
    {
        let program_regs = self.program_registers();
        let mut sp = self.registers[REG_SP];
        let mut pc = self.registers[REG_PC];
        let ssp = self.registers[REG_SSP];
        let hp = self.registers[REG_HP];
        let r = push_selected_registers(&mut self.memory, &mut sp, ssp, hp, &mut pc, &program_regs, segment, bitmask);
        self.registers[REG_SP] = sp;
        self.registers[REG_PC] = pc;
        r
    }

    /// Pops words from the stack into the registers of `segment` that `bitmask`
    /// selects.
    pub fn pop_selected_registers(&mut self, segment: ProgramRegistersSegment, bitmask: u32) -> (r: SimpleResult<()>)
        requires
            old(self).inv(),
        ensures
            final(self).inv(),
            ({
                let regs = old(self).spec_registers();
                let (sp, pc, prog, m, res) = pop_outcome(regs.subrange(16, 64), segment, bitmask,
                    regs[REG_SP as int], regs[REG_SSP as int], regs[REG_HP as int], regs[REG_PC as int],
                    old(self).spec_memory()@);
                &&& final(self).spec_registers() == (regs.subrange(0, 16) + prog).update(REG_SP as int, sp).update(
                    REG_PC as int,
                    pc,
                )
                &&& final(self).spec_memory()@ == m
                &&& r == res
            }),
            final(self).spec_frames() == old(self).spec_frames(),
            final(self).spec_context() == old(self).spec_context(),
            final(self).spec_trace() == old(self).spec_trace(),
            final(self).spec_receipts() == old(self).spec_receipts(),
    {
        let mut program_regs = self.program_registers();
        let mut sp = self.registers[REG_SP];
        let mut pc = self.registers[REG_PC];
        let ssp = self.registers[REG_SSP];
        let hp = self.registers[REG_HP];
        let r = pop_selected_registers(&mut self.memory, &mut sp, ssp, hp, &mut pc, &mut program_regs, segment, bitmask);
        let ghost old_regs = self.registers@;
        let ghost mem_after = self.memory;
        let ghost frames_before = self.frames;
        let ghost context_before = self.context;
        let ghost trace_before = self.trace;
        let ghost receipts_before = self.receipts@;
        let mut i: usize = 0;
        while i < 48
            invariant
                i <= 48,
                self.receipts@ == receipts_before,
                self.registers@.len() == 64,
                old_regs.len() == 64,
                self.memory == mem_after,
                self.frames == frames_before,
                self.context == context_before,
                self.trace == trace_before,
                program_regs.0@.len() == 48,
                forall|j: int| 0 <= j < 16 ==> self.registers@[j] == old_regs[j],
                forall|j: int| 16 <= j < 16 + i ==> self.registers@[j] == program_regs.0@[j - 16],
                forall|j: int| 16 + i <= j < 64 ==> self.registers@[j] == old_regs[j],
            decreases 48 - i,
        {
            self.registers[16 + i] = program_regs.0[i];
            i = i + 1;
        }
        proof {
            assert(self.registers@ =~= old_regs.subrange(0, 16) + program_regs.0@);
        }
        self.registers[REG_SP] = sp;
        self.registers[REG_PC] = pc;
        r
    }

    /// The first step of a call: charges the base gas of the call, then reads the
    /// call parameters at register `ra`, the asset id at register `rc` and, in a call,
    /// the calling contract at the frame pointer; registers `rb` and `rd` give the
    /// forwarded coins and gas. Stops at the first failure, with the gas charged.
    pub fn call_request(&mut self, ra: usize, rb: usize, rc: usize, rd: usize, base: u64) -> (r: SimpleResult<CallRequest>)
        requires
            old(self).inv(),
            ra < VM_REGISTER_COUNT,
            rb < VM_REGISTER_COUNT,
            rc < VM_REGISTER_COUNT,
            rd < VM_REGISTER_COUNT,
        ensures
            final(self).inv(),
            final(self).spec_memory() == old(self).spec_memory(),
            final(self).spec_frames() == old(self).spec_frames(),
            final(self).spec_context() == old(self).spec_context(),
            final(self).spec_trace() == old(self).spec_trace(),
            final(self).spec_receipts() == old(self).spec_receipts(),
            final(self).spec_registers() == charged(old(self).spec_registers(), base as int).0,
            ({
                let regs = old(self).spec_registers();
                let regs1 = charged(regs, base as int).0;
                let m = old(self).spec_memory()@;
                let fp = regs1[REG_FP as int];
                let cp = regs[ra as int];
                let ap = regs[rc as int];
                if charged(regs, base as int).1 is Err {
                    r == Err::<CallRequest, PanicOrBug>(charged(regs, base as int).1->Err_0)
                } else if old(self).spec_context() is Call && m.verify(fp as int, 32) is Err {
                    r == Err::<CallRequest, PanicOrBug>(PanicOrBug::Panic(m.verify(fp as int, 32)->Err_0))
                } else if m.verify(cp as int, CALL_PARAMS_SIZE as int) is Err {
                    r == Err::<CallRequest, PanicOrBug>(PanicOrBug::Panic(m.verify(cp as int, CALL_PARAMS_SIZE as int)->Err_0))
                } else if m.verify(ap as int, 32) is Err {
                    r == Err::<CallRequest, PanicOrBug>(PanicOrBug::Panic(m.verify(ap as int, 32)->Err_0))
                } else {
                    let call = m.read(cp as int, cp + CALL_PARAMS_SIZE);
                    &&& r is Ok
                    &&& r->Ok_0.to@ == call.subrange(0, 32)
                    &&& r->Ok_0.a == word_from_be(call.subrange(32, 40))
                    &&& r->Ok_0.b == word_from_be(call.subrange(40, 48))
                    &&& r->Ok_0.asset_id@ == m.read(ap as int, ap + 32)
                    &&& r->Ok_0.coins == regs[rb as int]
                    &&& r->Ok_0.gas == regs[rd as int]
                    &&& if old(self).spec_context() is Call {
                        r->Ok_0.source is Some && r->Ok_0.source->0@ == m.read(fp as int, fp + 32)
                    } else {
                        r->Ok_0.source is None
                    }
                }
            }),
    {
        let call_params_pointer = self.registers[ra];
        let coins = self.registers[rb];
        let asset_id_pointer = self.registers[rc];
        let gas = self.registers[rd];
        match self.gas_charge(base) {
            Ok(()) => {},
            Err(e) => return Err(e),
        }
        let source = match current_contract(&self.context, self.registers[REG_FP], &self.memory) {
            Ok(c) => c,
            Err(e) => return Err(PanicOrBug::Panic(e)),
        };
        let call: [u8; 48] = match self.memory.read_bytes(call_params_pointer) {
            Ok(c) => c,
            Err(e) => return Err(PanicOrBug::Panic(e)),
        };
        let asset_id: [u8; 32] = match self.memory.read_bytes(asset_id_pointer) {
            Ok(c) => c,
            Err(e) => return Err(PanicOrBug::Panic(e)),
        };
        let mut to = [0u8; 32];
        let mut i: usize = 0;
        while i < 32
            invariant
                i <= 32,
                forall|j: int| 0 <= j < i ==> to@[j] == call@[j],
            decreases 32 - i,
        {
            to[i] = call[i];
            i = i + 1;
        }
        let a = word_from_be_bytes([call[32], call[33], call[34], call[35], call[36], call[37], call[38], call[39]]);
        let b = word_from_be_bytes([call[40], call[41], call[42], call[43], call[44], call[45], call[46], call[47]]);
        proof {
            assert(to@ =~= call@.subrange(0, 32));
            assert([call[32], call[33], call[34], call[35], call[36], call[37], call[38], call[39]]@
                =~= call@.subrange(32, 40));
            assert([call[40], call[41], call[42], call[43], call[44], call[45], call[46], call[47]]@
                =~= call@.subrange(40, 48));
        }
        Ok(CallRequest { to, a, b, asset_id, coins, gas, source })
    }

    /// The last step of a call to the contract whose code is `code`, once the gas
    /// for its size is charged and its coins are moved: takes the forwarded gas out of
    /// the context gas, grows the stack over the frame and the code padded to whole
    /// words, moves the stack start and stack pointer above them and the frame
    /// pointer to their start, writes the frame (with the caller's registers and the
    /// reduced context gas), the code and its zero padding there, starts the code with
    /// the forwarded coins and gas and clear flags, adds a call receipt, and saves the
    /// frame. Returns the forwarded gas.
    pub fn prepare_call(&mut self, request: &CallRequest, code: &[u8]) -> (r: SimpleResult<u64>)
        requires
            old(self).inv(),
            call_frame_size_spec(code@.len() as u64) is Ok,
            code@.len() <= u64::MAX,
        ensures
            final(self).inv(),
            final(self).spec_trace() == old(self).spec_trace(),
            ({
                let regs = old(self).spec_registers();
                let fwd = forwarded_gas(regs[REG_CGAS as int], request.gas);
                let saved = regs.update(REG_CGAS as int, (regs[REG_CGAS as int] - fwd) as u64);
                let (padded, total) = call_frame_size_spec(code@.len() as u64)->Ok_0;
                let old_sp = regs[REG_SP as int];
                let (regs2, m2, res) = entered_call(regs, old(self).spec_memory()@, request.coins, request.gas, total);
                &&& final(self).spec_registers() == regs2
                &&& match res {
                    Err(e) => {
                        &&& r == Err::<u64, PanicOrBug>(e)
                        &&& final(self).spec_memory()@ == m2
                        &&& final(self).spec_frames() == old(self).spec_frames()
                        &&& final(self).spec_context() == old(self).spec_context()
                        &&& final(self).spec_receipts() == old(self).spec_receipts()
                    },
                    Ok(()) => {
                        let frame = call_frame_bytes(request.to@, request.asset_id@, saved, padded, request.a, request.b);
                        let code_start = (old_sp + CALL_FRAME_SIZE) as u64;
                        let receipts = final(self).spec_receipts();
                        &&& final(self).spec_memory()@
                            == m2.write(old_sp as int, frame + code@ + zeros(padded - code@.len()))
                        &&& final(self).spec_context()
                            == old(self).spec_context().spec_after_frame_pointer(old_sp)
                        &&& if plain_push_refusal(old(self).spec_receipts().len() as int) is Some {
                            &&& r == Err::<u64, PanicOrBug>(plain_push_refusal(old(self).spec_receipts().len() as int)->0)
                            &&& final(self).spec_frames() == old(self).spec_frames()
                        } else {
                            &&& r == Ok::<u64, PanicOrBug>(fwd)
                            &&& receipts == old(self).spec_receipts().push(receipts.last())
                            &&& final(self).spec_frames().drop_last() == old(self).spec_frames()
                            &&& final(self).spec_frames().len() == old(self).spec_frames().len() + 1
                            &&& final(self).spec_frames().last().spec_registers() == saved
                            &&& final(self).spec_frames().last().spec_bytes() == frame
                        }
                        &&& r is Err ==> receipts == old(self).spec_receipts()
                        &&& r is Ok ==> ({
                            &&& receipts.last() is Call
                            &&& receipts.last()->Call_id@ == (if request.source is Some {
                                request.source->0@
                            } else {
                                Seq::new(32, |i: int| 0u8)
                            })
                            &&& receipts.last()->Call_to == request.to
                            &&& receipts.last()->Call_amount == request.coins
                            &&& receipts.last()->Call_asset_id == request.asset_id
                            &&& receipts.last()->Call_gas == fwd
                            &&& receipts.last()->Call_param1 == request.a
                            &&& receipts.last()->Call_param2 == request.b
                            &&& receipts.last()->Call_pc == code_start
                            &&& receipts.last()->Call_is == code_start
                        })
                    },
                }
            }),
    {
        let (padded, total) = match call_frame_size(code.len() as u64) {
            Ok(t) => t,
            Err(e) => return Err(e),
        };
        let cgas = self.registers[REG_CGAS];
        let fwd = if request.gas < cgas { request.gas } else { cgas };
        self.registers[REG_CGAS] = cgas - fwd;
        let frame = CallFrame::new(request.to, request.asset_id, self.registers, padded, request.a, request.b);
        let old_sp = self.registers[REG_SP];
        let new_sp = old_sp.saturating_add(total);
        match self.memory.grow_stack(new_sp) {
            Ok(()) => {},
            Err(e) => return Err(PanicOrBug::Panic(e)),
        }
        proof {
            self.memory.lemma_valid();
        }
        self.registers[REG_SP] = new_sp;
        self.registers[REG_SSP] = new_sp;
        let id = match request.source {
            Some(c) => c,
            None => [0u8; 32],
        };
        set_frame_pointer(&mut self.context, &mut self.registers[REG_FP], old_sp);
        let mut bytes = frame.to_bytes();
        bytes.extend_from_slice(code);
        let pad_len = (padded - code.len() as u64) as usize;
        let padding: Vec<u8> = vec![0u8; pad_len];
        bytes.extend_from_slice(padding.as_slice());
        proof {
            assert(padding@ =~= zeros(padded - code@.len()));
            assert(bytes@.len() == total);
        }
        match self.memory.write_noownerchecks(old_sp, bytes.as_slice()) {
            Ok(()) => {},
            Err(e) => return Err(PanicOrBug::Panic(e)),
        }
        let code_start = old_sp + CALL_FRAME_SIZE;
        self.registers[REG_PC] = code_start;
        self.registers[REG_BAL] = request.coins;
        self.registers[REG_IS] = code_start;
        self.registers[REG_CGAS] = fwd;
        self.registers[REG_FLAG] = 0;
        let receipt = Receipt::Call {
            id,
            to: request.to,
            amount: request.coins,
            asset_id: request.asset_id,
            gas: fwd,
            param1: request.a,
            param2: request.b,
            pc: code_start,
            is: code_start,
        };
        proof {
            if request.source is None {
                assert(id@ =~= Seq::new(32, |i: int| 0u8));
            }
        }
        self.receipts.push(receipt)?;
        self.frames.push(frame);
        proof {
            assert(self.frames@.drop_last() =~= old(self).frames@);
        }
        Ok(fwd)
    }

    /// Grows the heap by `amount` bytes, moving the heap pointer register.
    pub fn allocate(&mut self, amount: u64) -> (r: SimpleResult<()>)
        requires
            old(self).inv(),
        ensures
            final(self).inv(),
            ({
                let regs = old(self).spec_registers();
                let m = old(self).spec_memory()@;
                if amount > m.hp {
                    r == Err::<(), PanicOrBug>(PanicOrBug::Panic(PanicReason::MemoryOverflow))
                        && final(self).spec_memory()@ == m && final(self).spec_registers() == regs
                        && final(self).spec_memory().raw_heap() == old(self).spec_memory().raw_heap()
                } else if m.hp - amount < regs[REG_SP as int] {
                    r == Err::<(), PanicOrBug>(PanicOrBug::Panic(PanicReason::MemoryGrowthOverlap))
                        && final(self).spec_memory()@ == m && final(self).spec_registers() == regs
                        && final(self).spec_memory().raw_heap() == old(self).spec_memory().raw_heap()
                } else {
                    &&& r == Ok::<(), PanicOrBug>(())
                    &&& final(self).spec_memory()@ == old(self).spec_memory().heap_grown(m.hp - amount)
                    &&& final(self).spec_registers() == regs.update(REG_HP as int, (m.hp - amount) as u64)
                }
            }),
            final(self).spec_frames() == old(self).spec_frames(),
            final(self).spec_context() == old(self).spec_context(),
            final(self).spec_trace() == old(self).spec_trace(),
            final(self).spec_receipts() == old(self).spec_receipts(),
    {
        let sp = self.registers[REG_SP];
        let mut hp = self.registers[REG_HP];
        let r = self.memory.grow_heap_by(sp, &mut hp, amount);
        self.registers[REG_HP] = hp;
        match r {
            Ok(()) => Ok(()),
            Err(e) => Err(crate::error::PanicOrBug::Panic(e)),
        }
    }

    /// Grows the heap by `a` bytes, moving the heap pointer register, then advances
    /// the program counter.
    pub fn malloc(&mut self, a: u64) -> (r: SimpleResult<()>)
        requires
            old(self).inv(),
        ensures
            final(self).inv(),
            ({
                let regs = old(self).spec_registers();
                let m = old(self).spec_memory()@;
                if a > m.hp {
                    r == Err::<(), PanicOrBug>(PanicOrBug::Panic(PanicReason::MemoryOverflow))
                        && final(self).spec_memory()@ == m && final(self).spec_registers() == regs
                        && final(self).spec_memory().raw_heap() == old(self).spec_memory().raw_heap()
                } else if m.hp - a < regs[REG_SP as int] {
                    r == Err::<(), PanicOrBug>(PanicOrBug::Panic(PanicReason::MemoryGrowthOverlap))
                        && final(self).spec_memory()@ == m && final(self).spec_registers() == regs
                        && final(self).spec_memory().raw_heap() == old(self).spec_memory().raw_heap()
                } else {
                    let new_hp = (m.hp - a) as u64;
                    let (p, res) = finish_pc(regs[REG_PC as int]);
                    &&& final(self).spec_memory()@ == old(self).spec_memory().heap_grown(new_hp as int)
                    &&& final(self).spec_registers() == regs.update(REG_HP as int, new_hp).update(REG_PC as int, p)
                    &&& r == res
                }
            }),
            final(self).spec_frames() == old(self).spec_frames(),
            final(self).spec_context() == old(self).spec_context(),
            final(self).spec_trace() == old(self).spec_trace(),
            final(self).spec_receipts() == old(self).spec_receipts(),
    {
        let sp = self.registers[REG_SP];
        let mut hp = self.registers[REG_HP];
        let mut pc = self.registers[REG_PC];
        let r = crate::memory_ops::malloc(&mut hp, sp, &mut pc, a, &mut self.memory);
        self.registers[REG_HP] = hp;
        self.registers[REG_PC] = pc;
        proof {
            let regs = old(self).spec_registers();
            let m = old(self).spec_memory()@;
            if a > m.hp || m.hp - a < regs[REG_SP as int] {
                assert(self.registers@ =~= regs);
            }
        }
        r
    }

    /// Moves the stack pointer to `f` applied to it and `v`, failing with
    /// `MemoryOverflow` when `f` reports an overflow, then advances the program counter.
    pub fn stack_pointer_overflow<F>(&mut self, f: F, v: u64) -> (r: SimpleResult<()>)
        where
            F: FnOnce(u64, u64) -> (u64, bool),
        requires
            old(self).inv(),
            call_requires(f, (old(self).spec_registers()[REG_SP as int], v)),
        ensures
            final(self).inv(),
            exists|res: (u64, bool)|
                #[trigger] call_ensures(f, (old(self).spec_registers()[REG_SP as int], v), res) && {
                    let t = stack_moved(
                        old(self).spec_registers(),
                        old(self).spec_memory()@,
                        if res.1 { None } else { Some(res.0) },
                    );
                    &&& final(self).spec_registers() == t.0
                    &&& final(self).spec_memory()@ == t.1
                    &&& r == t.2
                },
            final(self).spec_frames() == old(self).spec_frames(),
            final(self).spec_context() == old(self).spec_context(),
            final(self).spec_trace() == old(self).spec_trace(),
            final(self).spec_receipts() == old(self).spec_receipts(),
    {
        let mut sp = self.registers[REG_SP];
        let ssp = self.registers[REG_SSP];
        let hp = self.registers[REG_HP];
        let mut pc = self.registers[REG_PC];
        let ghost regs = self.registers@;
        let r = crate::memory_ops::stack_pointer_overflow(&mut sp, ssp, hp, &mut pc, f, v, &mut self.memory);
        self.registers[REG_SP] = sp;
        self.registers[REG_PC] = pc;
        proof {
            let res = choose|res: (u64, bool)| #[trigger] call_ensures(f, (regs[REG_SP as int], v), res) && if res.1 {
                r == Err::<(), PanicOrBug>(PanicOrBug::Panic(PanicReason::MemoryOverflow))
                    && sp == regs[REG_SP as int] && pc == regs[REG_PC as int]
            } else {
                let (s, m, res2) = stack_move(regs[REG_SP as int], ssp, hp, res.0, old(self).spec_memory()@);
                &&& sp == s
                &&& self.memory@ == m
                &&& match res2 {
                    Err(e) => r == Err::<(), PanicOrBug>(PanicOrBug::Panic(e)) && pc == regs[REG_PC as int],
                    Ok(()) => match crate::internal::pc_advanced(regs[REG_PC as int]) {
                        Ok(p) => r == Ok::<(), PanicOrBug>(()) && pc == p,
                        Err(e) => r == Err::<(), PanicOrBug>(PanicOrBug::Panic(e)) && pc == regs[REG_PC as int],
                    },
                }
            };
            let t = stack_moved(regs, old(self).spec_memory()@, if res.1 { None } else { Some(res.0) });
            if res.1 {
                assert(self.registers@ =~= regs);
            } else {
                let (s, m, res2) = stack_move(regs[REG_SP as int], ssp, hp, res.0, old(self).spec_memory()@);
                match res2 {
                    Err(e) => {
                        assert(self.registers@ =~= regs.update(REG_SP as int, s));
                    },
                    Ok(()) => {
                        assert(self.registers@ =~= t.0);
                    },
                }
            }
            assert(self.registers@ == t.0);
        }
        r
    }

    /// The code window that a compiled block may start at: the program counter and the
    /// number of bytes from it up to the stack start, at most 256 instructions; `None`
    /// when the program counter lies outside the code or less than one instruction
    /// remains.
    pub fn jit_bounds(&self) -> (r: Option<(u64, u64)>)
        ensures
            ({
                let regs = self.spec_registers();
                let pc = regs[REG_PC as int];
                let ssp = regs[REG_SSP as int];
                let len = if ssp - pc < 1024 { ssp - pc } else { 1024 };
                if pc < regs[REG_IS as int] || pc >= ssp || len < 4 {
                    r is None
                } else {
                    r == Some((pc, len as u64))
                }
            }),
    {
        let pc = self.registers[REG_PC];
        let ssp = self.registers[REG_SSP];
        let is = self.registers[REG_IS];
        if pc < is || pc >= ssp {
            return None;
        }
        let rest = ssp - pc;
        let len = if rest < 1024 { rest } else { 1024 };
        if len < 4 {
            return None;
        }
        Some((pc, len))
    }

    /// Performs a jump from the current program counter.
    pub fn jump(&mut self, args: JumpArgs) -> (r: SimpleResult<()>)
        ensures
            final(self).spec_registers() == jumped(old(self).spec_registers(), args).0,
            r == jumped(old(self).spec_registers(), args).1,
            final(self).spec_memory() == old(self).spec_memory(),
            final(self).spec_frames() == old(self).spec_frames(),
            final(self).spec_context() == old(self).spec_context(),
            final(self).spec_trace() == old(self).spec_trace(),
            final(self).spec_receipts() == old(self).spec_receipts(),
    {
        let mut pc = self.registers[REG_PC];
        let is = self.registers[REG_IS];
        let r = args.jump(is, &mut pc);
        self.registers[REG_PC] = pc;
        proof {
            assert(self.registers@ =~= old(self).spec_registers().update(REG_PC as int, pc)) ;
        }
        r
    }

    /// Stores the word-sized parts of the arithmetic result `r` in register `ra`
    /// and the overflow register, as `alu_overflowed` says.
    pub fn alu_capture_overflow(&mut self, ra: usize, r: u128) -> (res: SimpleResult<()>)
        requires
            ra < VM_REGISTER_COUNT,
        ensures
            final(self).spec_registers() == alu_overflowed(old(self).spec_registers(), ra as int, r).0,
            res == alu_overflowed(old(self).spec_registers(), ra as int, r).1,
            final(self).spec_memory() == old(self).spec_memory(),
            final(self).spec_frames() == old(self).spec_frames(),
            final(self).spec_context() == old(self).spec_context(),
            final(self).spec_trace() == old(self).spec_trace(),
            final(self).spec_receipts() == old(self).spec_receipts(),
    {
        if ra < 16 {
            return Err(PanicOrBug::Panic(PanicReason::ReservedRegisterNotWritable));
        }
        if r > u64::MAX as u128 && self.registers[REG_FLAG] & 2 == 0 {
            return Err(PanicOrBug::Panic(PanicReason::ArithmeticOverflow));
        }
        self.registers[REG_OF] = (r >> 64u128) as u64;
        self.registers[REG_ERR] = 0;
        self.registers[ra] = r as u64;
        let mut pc = self.registers[REG_PC];
        let res = inc_pc_result(&mut pc);
        self.registers[REG_PC] = pc;
        res
    }

    /// Sets register `ra` to `v`, as `alu_set_to` says.
    pub fn alu_set(&mut self, ra: usize, v: u64) -> (res: SimpleResult<()>)
        requires
            ra < VM_REGISTER_COUNT,
        ensures
            final(self).spec_registers() == alu_set_to(old(self).spec_registers(), ra as int, v).0,
            res == alu_set_to(old(self).spec_registers(), ra as int, v).1,
            final(self).spec_memory() == old(self).spec_memory(),
            final(self).spec_frames() == old(self).spec_frames(),
            final(self).spec_context() == old(self).spec_context(),
            final(self).spec_trace() == old(self).spec_trace(),
            final(self).spec_receipts() == old(self).spec_receipts(),
    {
        if ra < 16 {
            return Err(PanicOrBug::Panic(PanicReason::ReservedRegisterNotWritable));
        }
        self.registers[REG_OF] = 0;
        self.registers[REG_ERR] = 0;
        self.registers[ra] = v;
        let mut pc = self.registers[REG_PC];
        let res = inc_pc_result(&mut pc);
        self.registers[REG_PC] = pc;
        res
    }

    /// Sets register `ra` to `v`, or handles the arithmetic failure `err`, as
    /// `alu_checked` says.
    pub fn alu_error(&mut self, ra: usize, v: u64, err: bool) -> (res: SimpleResult<()>)
        requires
            ra < VM_REGISTER_COUNT,
        ensures
            final(self).spec_registers() == alu_checked(old(self).spec_registers(), ra as int, v, err).0,
            res == alu_checked(old(self).spec_registers(), ra as int, v, err).1,
            final(self).spec_memory() == old(self).spec_memory(),
            final(self).spec_frames() == old(self).spec_frames(),
            final(self).spec_context() == old(self).spec_context(),
            final(self).spec_trace() == old(self).spec_trace(),
            final(self).spec_receipts() == old(self).spec_receipts(),
    {
        if ra < 16 {
            return Err(PanicOrBug::Panic(PanicReason::ReservedRegisterNotWritable));
        }
        if err && self.registers[REG_FLAG] & 1 == 0 {
            return Err(PanicOrBug::Panic(PanicReason::ArithmeticError));
        }
        self.registers[REG_OF] = 0;
        self.registers[REG_ERR] = if err { 1 } else { 0 };
        self.registers[ra] = if err { 0 } else { v };
        let mut pc = self.registers[REG_PC];
        let res = inc_pc_result(&mut pc);
        self.registers[REG_PC] = pc;
        res
    }

    /// Clears the overflow and error registers, as `alu_cleared` says.
    pub fn alu_clear(&mut self) -> (res: SimpleResult<()>)
        ensures
            final(self).spec_registers() == alu_cleared(old(self).spec_registers()).0,
            res == alu_cleared(old(self).spec_registers()).1,
            final(self).spec_memory() == old(self).spec_memory(),
            final(self).spec_frames() == old(self).spec_frames(),
            final(self).spec_context() == old(self).spec_context(),
            final(self).spec_trace() == old(self).spec_trace(),
            final(self).spec_receipts() == old(self).spec_receipts(),
    {
        self.registers[REG_OF] = 0;
        self.registers[REG_ERR] = 0;
        let mut pc = self.registers[REG_PC];
        let res = inc_pc_result(&mut pc);
        self.registers[REG_PC] = pc;
        res
    }

    /// Leaves the running context with `receipt`, as `left_context` says.
    pub fn return_from_context(&mut self, receipt: Receipt) -> (r: SimpleResult<()>)
        ensures
            (final(self).spec_registers(), final(self).spec_frames(), final(self).spec_context(),
                final(self).spec_receipts(), r) == left_context(old(self).spec_registers(), old(self).spec_frames(),
                old(self).spec_context(), old(self).spec_receipts(), receipt),
            final(self).spec_memory() == old(self).spec_memory(),
            final(self).spec_trace() == old(self).spec_trace(),
            old(self).spec_receipts().is_prefix_of(final(self).spec_receipts()),
    {
        proof {
            lemma_prefix_push(self.receipts@, receipt);
        }
        self.return_from_context_registers()?;
        self.receipts.push(receipt)?;
        let mut pc = self.registers[REG_PC];
        let r = inc_pc_result(&mut pc);
        self.registers[REG_PC] = pc;
        r
    }

    /// RET's effect: returns the word `a` from the running context with a return
    /// receipt; the id of a call is read at the frame pointer first.
    pub fn ret(&mut self, a: u64) -> (r: SimpleResult<()>)
        requires
            old(self).inv(),
        ensures
            final(self).inv(),
            final(self).spec_memory() == old(self).spec_memory(),
            final(self).spec_trace() == old(self).spec_trace(),
            old(self).spec_receipts().is_prefix_of(final(self).spec_receipts()),
            ({
                let regs = old(self).spec_registers();
                let m = old(self).spec_memory()@;
                let fp = regs[REG_FP as int];
                if old(self).spec_context() is Call && m.verify(fp as int, 32) is Err {
                    &&& r == Err::<(), PanicOrBug>(PanicOrBug::Panic(m.verify(fp as int, 32)->Err_0))
                    &&& final(self).spec_registers() == regs
                    &&& final(self).spec_frames() == old(self).spec_frames()
                    &&& final(self).spec_context() == old(self).spec_context()
                    &&& final(self).spec_receipts() == old(self).spec_receipts()
                } else {
                    exists|id: [u8; 32]| #[trigger] id@ == context_id(old(self).spec_context(), m, fp)
                        && (final(self).spec_registers(), final(self).spec_frames(), final(self).spec_context(),
                        final(self).spec_receipts(), r) == left_context(
                            regs.update(REG_RET as int, a).update(REG_RETL as int, 0),
                            old(self).spec_frames(), old(self).spec_context(), old(self).spec_receipts(),
                            Receipt::Return { id, val: a, pc: regs[REG_PC as int], is: regs[REG_IS as int] })
                }
            }),
    {
        proof {
            lemma_prefix_push(self.receipts@, Receipt::ScriptResult { result: crate::run::ScriptExecutionResult::Success, gas_used: 0 });
        }
        let id = match current_contract(&self.context, self.registers[REG_FP], &self.memory) {
            Ok(Some(c)) => c,
            Ok(None) => [0u8; 32],
            Err(e) => return Err(PanicOrBug::Panic(e)),
        };
        proof {
            assert(id@ =~= context_id(old(self).spec_context(), old(self).spec_memory()@, self.registers@[REG_FP as int]));
        }
        let receipt = Receipt::Return { id, val: a, pc: self.registers[REG_PC], is: self.registers[REG_IS] };
        self.registers[REG_RET] = a;
        self.registers[REG_RETL] = 0;
        self.return_from_context(receipt)
    }

    /// RVRT's effect: adds a revert receipt with the word `a`; an id that cannot be
    /// read counts as zero.
    pub fn revert(&mut self, a: u64) -> (r: SimpleResult<()>)
        requires
            old(self).inv(),
        ensures
            final(self).spec_registers() == old(self).spec_registers(),
            final(self).spec_memory() == old(self).spec_memory(),
            final(self).spec_frames() == old(self).spec_frames(),
            final(self).spec_context() == old(self).spec_context(),
            final(self).spec_trace() == old(self).spec_trace(),
            ({
                let regs = old(self).spec_registers();
                let m = old(self).spec_memory()@;
                let fp = regs[REG_FP as int];
                let readable = !(old(self).spec_context() is Call) || m.verify(fp as int, 32) is Ok;
                exists|id: [u8; 32]| #[trigger] id@ == (if readable {
                    context_id(old(self).spec_context(), m, fp)
                } else {
                    Seq::new(32, |i: int| 0u8)
                }) && {
                    let receipt = Receipt::Revert { id, ra: a, pc: regs[REG_PC as int], is: regs[REG_IS as int] };
                    match push_refusal(old(self).spec_receipts().len() as int, receipt) {
                        Some(e) => r == Err::<(), PanicOrBug>(e) && final(self).spec_receipts() == old(self).spec_receipts(),
                        None => r == Ok::<(), PanicOrBug>(()) && final(self).spec_receipts() == old(self).spec_receipts().push(receipt),
                    }
                }
            }),
    {
        let id = match current_contract(&self.context, self.registers[REG_FP], &self.memory) {
            Ok(Some(c)) => c,
            _ => [0u8; 32],
        };
        proof {
            let m = old(self).spec_memory()@;
            let fp = self.registers@[REG_FP as int];
            if !(old(self).spec_context() is Call) || m.verify(fp as int, 32) is Ok {
                assert(id@ =~= context_id(old(self).spec_context(), m, fp));
            } else {
                assert(id@ =~= Seq::new(32, |i: int| 0u8));
            }
        }
        let receipt = Receipt::Revert { id, ra: a, pc: self.registers[REG_PC], is: self.registers[REG_IS] };
        self.receipts.push(receipt)
    }

    /// Adds the receipt of the panic `p` of the running context; an id that cannot be
    /// read counts as zero.
    pub fn append_panic_receipt(&mut self, p: PanicInstruction) -> (r: SimpleResult<()>)
        requires
            old(self).inv(),
        ensures
            final(self).spec_registers() == old(self).spec_registers(),
            final(self).spec_memory() == old(self).spec_memory(),
            final(self).spec_frames() == old(self).spec_frames(),
            final(self).spec_context() == old(self).spec_context(),
            final(self).spec_trace() == old(self).spec_trace(),
            ({
                let regs = old(self).spec_registers();
                let m = old(self).spec_memory()@;
                let fp = regs[REG_FP as int];
                exists|id: [u8; 32]| #[trigger] id@ == (if old(self).spec_context() is Call && m.verify(fp as int, 32) is Ok {
                    m.read(fp as int, fp + 32)
                } else {
                    Seq::new(32, |i: int| 0u8)
                }) && {
                    let receipt = Receipt::Panic {
                        id,
                        reason: p,
                        pc: regs[REG_PC as int],
                        is: regs[REG_IS as int],
                        contract_id: None,
                    };
                    match push_refusal(old(self).spec_receipts().len() as int, receipt) {
                        Some(e) => r == Err::<(), PanicOrBug>(e)
                            && final(self).spec_receipts() == old(self).spec_receipts(),
                        None => r == Ok::<(), PanicOrBug>(())
                            && final(self).spec_receipts() == old(self).spec_receipts().push(receipt),
                    }
                }
            }),
    {
        let id = match internal_contract(&self.context, self.registers[REG_FP], &self.memory) {
            Ok(c) => c,
            Err(_) => [0u8; 32],
        };
        proof {
            let m = old(self).spec_memory()@;
            let fp = self.registers@[REG_FP as int];
            if old(self).spec_context() is Call && m.verify(fp as int, 32) is Ok {
                assert(id@ =~= m.read(fp as int, fp + 32));
            } else {
                assert(id@ =~= Seq::new(32, |i: int| 0u8));
            }
        }
        let receipt = Receipt::Panic { id, reason: p, pc: self.registers[REG_PC], is: self.registers[REG_IS], contract_id: None };
        self.receipts.push(receipt)
    }

    /// The receipts of the run.
    pub fn receipts(&self) -> (r: &[Receipt])
        ensures
            r@ == self.spec_receipts(),
    {
        self.receipts.as_slice()
    }

    /// Whether a call is running, that is, whether there are call frames.
    pub fn in_call(&self) -> (r: bool)
        ensures
            r == (self.spec_frames().len() > 0),
    {
        self.frames.len() > 0
    }

    /// Adds `receipt` at the end of the receipts, as `push_refusal` allows.
    pub fn push_receipt(&mut self, receipt: Receipt) -> (r: SimpleResult<()>)
        ensures
            match push_refusal(old(self).spec_receipts().len() as int, receipt) {
                Some(e) => r == Err::<(), PanicOrBug>(e) && final(self).spec_receipts() == old(self).spec_receipts(),
                None => r == Ok::<(), PanicOrBug>(()) && final(self).spec_receipts() == old(self).spec_receipts().push(receipt),
            },
            final(self).spec_registers() == old(self).spec_registers(),
            final(self).spec_memory() == old(self).spec_memory(),
            final(self).spec_frames() == old(self).spec_frames(),
            final(self).spec_context() == old(self).spec_context(),
            final(self).spec_trace() == old(self).spec_trace(),
    {
        self.receipts.push(receipt)
    }

    /// GTF's effect: sets register `ra` to the field of `tx` that selector `imm` and
    /// index `b` pick, as `gtf_value_spec` says, and advances the program counter; a
    /// reserved destination is refused first, and a failure changes nothing.
    pub fn gtf(&mut self, tx: &TxFields, ra: usize, b: u64, imm: u16) -> (r: SimpleResult<()>)
        requires
            ra < VM_REGISTER_COUNT,
        ensures
            final(self).spec_memory() == old(self).spec_memory(),
            final(self).spec_frames() == old(self).spec_frames(),
            final(self).spec_context() == old(self).spec_context(),
            final(self).spec_trace() == old(self).spec_trace(),
            final(self).spec_receipts() == old(self).spec_receipts(),
            ({
                let regs = old(self).spec_registers();
                if ra < 16 {
                    r == Err::<(), PanicOrBug>(PanicOrBug::Panic(PanicReason::ReservedRegisterNotWritable))
                        && final(self).spec_registers() == regs
                } else {
                    match gtf_value_spec(*tx, b, imm) {
                        Err(e) => r == Err::<(), PanicOrBug>(PanicOrBug::Panic(e)) && final(self).spec_registers() == regs,
                        Ok(v) => {
                            let (p, res) = finish_pc(regs[REG_PC as int]);
                            r == res && final(self).spec_registers() == regs.update(ra as int, v).update(REG_PC as int, p)
                        },
                    }
                }
            }),
    {
        if ra < 16 {
            return Err(PanicOrBug::Panic(PanicReason::ReservedRegisterNotWritable));
        }
        let mut result = self.registers[ra];
        let mut pc = self.registers[REG_PC];
        let r = get_transaction_field(tx, &mut result, &mut pc, b, imm);
        self.registers[ra] = result;
        self.registers[REG_PC] = pc;
        r
    }

    /// Writes `val` to register `reg`: a write to the zero register is discarded, one
    /// to another reserved register is refused.
    pub fn set_user_reg_or_discard(&mut self, reg: usize, val: u64) -> (r: SimpleResult<()>)
        requires
            reg < VM_REGISTER_COUNT,
        ensures
            final(self).spec_registers() == user_reg_set(old(self).spec_registers(), reg as int, val).0,
            r == user_reg_set(old(self).spec_registers(), reg as int, val).1,
            final(self).spec_memory() == old(self).spec_memory(),
            final(self).spec_frames() == old(self).spec_frames(),
            final(self).spec_context() == old(self).spec_context(),
            final(self).spec_trace() == old(self).spec_trace(),
            final(self).spec_receipts() == old(self).spec_receipts(),
    {
        if reg == 0 {
            return Ok(());
        }
        if reg < 16 {
            return Err(PanicOrBug::Panic(PanicReason::ReservedRegisterNotWritable));
        }
        self.registers[reg] = val;
        Ok(())
    }

    /// Sets the flags register, if `a` holds only known flags.
    pub fn set_flag(&mut self, a: u64) -> (r: SimpleResult<()>)
        ensures
            final(self).spec_registers() == flagged(old(self).spec_registers(), a).0,
            r == flagged(old(self).spec_registers(), a).1,
            final(self).spec_memory() == old(self).spec_memory(),
            final(self).spec_frames() == old(self).spec_frames(),
            final(self).spec_context() == old(self).spec_context(),
            final(self).spec_trace() == old(self).spec_trace(),
            final(self).spec_receipts() == old(self).spec_receipts(),
    {
        let mut flag = self.registers[REG_FLAG];
        let mut pc = self.registers[REG_PC];
        let r = set_flag(&mut flag, &mut pc, a);
        self.registers[REG_FLAG] = flag;
        self.registers[REG_PC] = pc;
        proof {
            let regs = old(self).spec_registers();
            if a & 3u64 != a {
                assert(self.registers@ =~= regs);
            }
        }
        r
    }

    /// Leaves the current call, if any: restores the registers that the call saved,
    /// except the context and global gas, the return value and length and the heap
    /// pointer; the context gas gets back what the caller had kept. The frame
    /// pointer update decides what runs next.
    pub fn return_from_context_registers(&mut self) -> (r: SimpleResult<()>)
        ensures
            ({
                let regs = old(self).spec_registers();
                let frames = old(self).spec_frames();
                if frames.len() == 0 {
                    r is Ok && final(self).spec_registers() == regs && final(self).spec_frames() == frames
                        && final(self).spec_context() == old(self).spec_context()
                } else {
                    let saved = frames.last().spec_registers();
                    match returned_registers(regs, saved) {
                        None => r == Err::<(), PanicOrBug>(PanicOrBug::Bug(BugVariant::ContextGasOverflow))
                            && final(self).spec_registers() == regs
                            && final(self).spec_frames() == frames.drop_last()
                            && final(self).spec_context() == old(self).spec_context(),
                        Some(restored) => {
                            &&& r is Ok
                            &&& final(self).spec_registers() == restored
                            &&& final(self).spec_frames() == frames.drop_last()
                            &&& final(self).spec_context()
                                == old(self).spec_context().spec_after_frame_pointer(saved[REG_FP as int])
                        },
                    }
                }
            }),
            final(self).spec_memory() == old(self).spec_memory(),
            final(self).spec_trace() == old(self).spec_trace(),
            final(self).spec_receipts() == old(self).spec_receipts(),
    {
        let frame = match self.frames.pop() {
            Some(f) => f,
            None => return Ok(()),
        };
        let cgas = match self.registers[REG_CGAS].checked_add(frame.registers[REG_CGAS]) {
            Some(c) => c,
            None => return Err(PanicOrBug::Bug(BugVariant::ContextGasOverflow)),
        };
        let ggas = self.registers[REG_GGAS];
        let ret = self.registers[REG_RET];
        let retl = self.registers[REG_RETL];
        let hp = self.registers[REG_HP];
        self.registers = frame.registers;
        self.registers[REG_CGAS] = cgas;
        self.registers[REG_GGAS] = ggas;
        self.registers[REG_RET] = ret;
        self.registers[REG_RETL] = retl;
        self.registers[REG_HP] = hp;
        let fp = self.registers[REG_FP];
        let mut fp_reg = fp;
        set_frame_pointer(&mut self.context, &mut fp_reg, fp);
        self.registers[REG_FP] = fp_reg;
        proof {
            assert(self.registers@ =~= frame.registers@.update(REG_CGAS as int, cgas)
                .update(REG_GGAS as int, ggas)
                .update(REG_RET as int, ret)
                .update(REG_RETL as int, retl)
                .update(REG_HP as int, hp));
        }
        Ok(())
    }

    /// Sets the return registers for a return of the word `a`: RET to `a` and RETL
    /// to zero.
    pub fn set_return_value(&mut self, a: u64)
        ensures
            final(self).spec_registers() == old(self).spec_registers().update(REG_RET as int, a).update(REG_RETL as int, 0),
            final(self).spec_memory() == old(self).spec_memory(),
            final(self).spec_frames() == old(self).spec_frames(),
            final(self).spec_context() == old(self).spec_context(),
            final(self).spec_trace() == old(self).spec_trace(),
            final(self).spec_receipts() == old(self).spec_receipts(),
    {
        self.registers[REG_RET] = a;
        self.registers[REG_RETL] = 0;
    }

    /// Reads the instruction at the program counter. The four bytes must be
    /// accessible, and the program counter must lie between IS and SSP.
    pub fn fetch_instruction(&self) -> (r: Result<[u8; 4], PanicInstruction>)
        requires
            self.inv(),
        ensures
            ({
                let regs = self.spec_registers();
                let pc = regs[REG_PC as int];
                let m = self.spec_memory()@;
                match m.verify(pc as int, 4) {
                    Err(e) => r == Err::<[u8; 4], PanicInstruction>(PanicInstruction { reason: e, instruction: 0 }),
                    Ok(_) => {
                        let b = m.read(pc as int, pc + 4);
                        if pc < regs[REG_IS as int] || pc >= regs[REG_SSP as int] {
                            r is Err && r->Err_0.reason == PanicReason::MemoryNotExecutable
                                && r->Err_0.instruction == (b[0] as u32) * 0x1000000 + (b[1] as u32) * 0x10000
                                    + (b[2] as u32) * 0x100 + b[3] as u32
                        } else {
                            r is Ok && r->Ok_0@ == b
                        }
                    },
                }
            }),
    {
        let pc = self.registers[REG_PC];
        let raw: [u8; 4] = match self.memory.read_bytes(pc) {
            Ok(b) => b,
            Err(reason) => return Err(PanicInstruction { reason, instruction: 0 }),
        };
        if pc < self.registers[REG_IS] || pc >= self.registers[REG_SSP] {
            let instruction = (raw[0] as u32) * 0x1000000 + (raw[1] as u32) * 0x10000 + (raw[2] as u32) * 0x100
                + raw[3] as u32;
            return Err(PanicInstruction { reason: PanicReason::MemoryNotExecutable, instruction });
        }
        Ok(raw)
    }

    /// Loads into register `ra` the byte at `b + c`.
    pub fn load_byte(&mut self, ra: usize, b: u64, c: u64) -> (r: SimpleResult<()>)
        requires
            old(self).inv(),
            ra < VM_REGISTER_COUNT,
        ensures
            ({
                let regs = old(self).spec_registers();
                if ra < 16 {
                    r == Err::<(), PanicOrBug>(PanicOrBug::Panic(PanicReason::ReservedRegisterNotWritable))
                        && final(self).spec_registers() == regs
                } else {
                    let (pc, v, res) = load_outcome(old(self).spec_memory()@, regs[REG_PC as int], regs[ra as int],
                        sat_addr(b as int, c as int), 1, |s: Seq<u8>| first_byte(s));
                    r == res && final(self).spec_registers() == regs.update(ra as int, v).update(REG_PC as int, pc)
                }
            }),
            final(self).spec_memory() == old(self).spec_memory(),
            final(self).spec_frames() == old(self).spec_frames(),
            final(self).spec_context() == old(self).spec_context(),
            final(self).spec_trace() == old(self).spec_trace(),
            final(self).spec_receipts() == old(self).spec_receipts(),
    {
        if ra < 16 {
            return Err(PanicOrBug::Panic(PanicReason::ReservedRegisterNotWritable));
        }
        let mut pc = self.registers[REG_PC];
        let mut result = self.registers[ra];
        let r = load_byte(&self.memory, &mut pc, &mut result, b, c);
        self.registers[ra] = result;
        self.registers[REG_PC] = pc;
        r
    }

    /// Loads into register `ra` the word at `b + 8 * c`.
    pub fn load_word(&mut self, ra: usize, b: u64, c: u64) -> (r: SimpleResult<()>)
        requires
            old(self).inv(),
            ra < VM_REGISTER_COUNT,
            c < 4096,
        ensures
            ({
                let regs = old(self).spec_registers();
                if ra < 16 {
                    r == Err::<(), PanicOrBug>(PanicOrBug::Panic(PanicReason::ReservedRegisterNotWritable))
                        && final(self).spec_registers() == regs
                } else if b + 8 * c > u64::MAX {
                    r == Err::<(), PanicOrBug>(PanicOrBug::Panic(PanicReason::MemoryOverflow))
                        && final(self).spec_registers() == regs
                } else {
                    let (pc, v, res) = load_outcome(old(self).spec_memory()@, regs[REG_PC as int], regs[ra as int],
                        b + 8 * c, 8, |s: Seq<u8>| word_from_be(s));
                    r == res && final(self).spec_registers() == regs.update(ra as int, v).update(REG_PC as int, pc)
                }
            }),
            final(self).spec_memory() == old(self).spec_memory(),
            final(self).spec_frames() == old(self).spec_frames(),
            final(self).spec_context() == old(self).spec_context(),
            final(self).spec_trace() == old(self).spec_trace(),
            final(self).spec_receipts() == old(self).spec_receipts(),
    {
        if ra < 16 {
            return Err(PanicOrBug::Panic(PanicReason::ReservedRegisterNotWritable));
        }
        let mut pc = self.registers[REG_PC];
        let mut result = self.registers[ra];
        let r = load_word(&self.memory, &mut pc, &mut result, b, c);
        self.registers[ra] = result;
        self.registers[REG_PC] = pc;
        proof {
            if b + 8 * c > u64::MAX {
                assert(self.registers@ =~= old(self).spec_registers());
            }
        }
        r
    }

    /// Stores the low byte of `b` at `a + c`, if the running context owns it.
    pub fn store_byte(&mut self, a: u64, b: u64, c: u64) -> (r: SimpleResult<()>)
        requires
            old(self).inv(),
        ensures
            final(self).inv(),
            ({
                let regs = old(self).spec_registers();
                let (pc, m, res) = store_outcome(old(self).spec_memory()@, old(self).ownership_of(), regs[REG_PC as int],
                    sat_addr(a as int, c as int), seq![(b % 256) as u8]);
                r == res && final(self).spec_memory()@ == m && final(self).spec_registers() == regs.update(REG_PC as int, pc)
            }),
            final(self).spec_frames() == old(self).spec_frames(),
            final(self).spec_context() == old(self).spec_context(),
            final(self).spec_trace() == old(self).spec_trace(),
            final(self).spec_receipts() == old(self).spec_receipts(),
    {
        let owner = self.ownership_registers();
        let mut pc = self.registers[REG_PC];
        let r = store_byte(&mut self.memory, owner, &mut pc, a, b, c);
        self.registers[REG_PC] = pc;
        r
    }

    /// Stores the word `b` at `a + 8 * c`, if the running context owns it.
    pub fn store_word(&mut self, a: u64, b: u64, c: u64) -> (r: SimpleResult<()>)
        requires
            old(self).inv(),
            c < 4096,
        ensures
            final(self).inv(),
            ({
                let regs = old(self).spec_registers();
                let (pc, m, res) = store_outcome(old(self).spec_memory()@, old(self).ownership_of(), regs[REG_PC as int],
                    sat_addr(a as int, 8 * c), crate::bytes::word_be_bytes(b));
                r == res && final(self).spec_memory()@ == m && final(self).spec_registers() == regs.update(REG_PC as int, pc)
            }),
            final(self).spec_frames() == old(self).spec_frames(),
            final(self).spec_context() == old(self).spec_context(),
            final(self).spec_trace() == old(self).spec_trace(),
            final(self).spec_receipts() == old(self).spec_receipts(),
    {
        let owner = self.ownership_registers();
        let mut pc = self.registers[REG_PC];
        let r = store_word(&mut self.memory, owner, &mut pc, a, b, c);
        self.registers[REG_PC] = pc;
        r
    }

    /// Zeroes `b` bytes at `a`, if the running context owns them.
    pub fn memclear(&mut self, a: u64, b: u64) -> (r: SimpleResult<()>)
        requires
            old(self).inv(),
        ensures
            final(self).inv(),
            ({
                let regs = old(self).spec_registers();
                let (pc, m, res) = store_outcome(old(self).spec_memory()@, old(self).ownership_of(), regs[REG_PC as int],
                    a as int, zeros(b as int));
                r == res && final(self).spec_memory()@ == m && final(self).spec_registers() == regs.update(REG_PC as int, pc)
            }),
            final(self).spec_frames() == old(self).spec_frames(),
            final(self).spec_context() == old(self).spec_context(),
            final(self).spec_trace() == old(self).spec_trace(),
            final(self).spec_receipts() == old(self).spec_receipts(),
    {
        let owner = self.ownership_registers();
        let mut pc = self.registers[REG_PC];
        let r = memclear(&mut self.memory, owner, &mut pc, a, b);
        self.registers[REG_PC] = pc;
        r
    }

    /// Copies `c` bytes from `b` to `a`, if the destination is owned and the ranges
    /// do not overlap.
    pub fn memcopy(&mut self, a: u64, b: u64, c: u64) -> (r: SimpleResult<()>)
        requires
            old(self).inv(),
        ensures
            final(self).inv(),
            ({
                let regs = old(self).spec_registers();
                let (pc, m, res) = memcopy_outcome(old(self).spec_memory()@, old(self).ownership_of(), regs[REG_PC as int],
                    a as int, b as int, c as int);
                r == res && final(self).spec_memory()@ == m && final(self).spec_registers() == regs.update(REG_PC as int, pc)
            }),
            old(self).spec_memory()@.memcopy(a as int, b as int, c as int, old(self).ownership_of()) is Err
                ==> final(self).spec_memory().raw_heap() == old(self).spec_memory().raw_heap(),
            final(self).spec_frames() == old(self).spec_frames(),
            final(self).spec_context() == old(self).spec_context(),
            final(self).spec_trace() == old(self).spec_trace(),
            final(self).spec_receipts() == old(self).spec_receipts(),
    {
        let owner = self.ownership_registers();
        let mut pc = self.registers[REG_PC];
        let r = memcopy(&mut self.memory, owner, &mut pc, a, b, c);
        self.registers[REG_PC] = pc;
        r
    }

    /// Sets register `ra` to whether the `d` bytes at `b` and at `c` are equal.
    pub fn memeq(&mut self, ra: usize, b: u64, c: u64, d: u64) -> (r: SimpleResult<()>)
        requires
            old(self).inv(),
            ra < VM_REGISTER_COUNT,
        ensures
            ({
                let regs = old(self).spec_registers();
                if ra < 16 {
                    r == Err::<(), PanicOrBug>(PanicOrBug::Panic(PanicReason::ReservedRegisterNotWritable))
                        && final(self).spec_registers() == regs
                } else {
                    let (pc, v, res) = memeq_outcome(old(self).spec_memory()@, regs[REG_PC as int], regs[ra as int],
                        b as int, c as int, d as int);
                    r == res && final(self).spec_registers() == regs.update(ra as int, v).update(REG_PC as int, pc)
                }
            }),
            final(self).spec_memory() == old(self).spec_memory(),
            final(self).spec_frames() == old(self).spec_frames(),
            final(self).spec_context() == old(self).spec_context(),
            final(self).spec_trace() == old(self).spec_trace(),
            final(self).spec_receipts() == old(self).spec_receipts(),
    {
        if ra < 16 {
            return Err(PanicOrBug::Panic(PanicReason::ReservedRegisterNotWritable));
        }
        let mut pc = self.registers[REG_PC];
        let mut result = self.registers[ra];
        let r = memeq(&self.memory, &mut result, &mut pc, b, c, d);
        self.registers[ra] = result;
        self.registers[REG_PC] = pc;
        r
    }
}

} // verus!
