use crate::consts::WORD_SIZE;
use crate::error::{PanicOrBug, PanicReason, SimpleResult};
use crate::internal::{inc_pc_result, pc_advanced};
use vstd::prelude::*;

verus! {

/// The kinds of transaction input.
#[derive(Debug, Clone, Copy, PartialEq, Eq, Structural)]
pub enum InputKind {
    /// A coin, signed or guarded by a predicate.
    Coin,
    /// A contract.
    Contract,
    /// A message, with or without data, signed or guarded by a predicate.
    Message,
}

/// The kinds of transaction output.
#[derive(Debug, Clone, Copy, PartialEq, Eq, Structural)]
pub enum OutputKind {
    /// Coins sent to an address.
    Coin,
    /// The state of a contract input.
    Contract,
    /// The change of an asset.
    Change,
    /// Coins whose amount the execution sets.
    Variable,
    /// A contract that the transaction creates.
    ContractCreated,
}

/// The number by which a transaction stores the kind of an input.
pub open spec fn input_repr(kind: InputKind) -> u64 {
    match kind {
        InputKind::Coin => 0,
        InputKind::Contract => 1,
        InputKind::Message => 2,
    }
}

/// The number by which a transaction stores the kind of an output.
pub open spec fn output_repr(kind: OutputKind) -> u64 {
    match kind {
        OutputKind::Coin => 0,
        OutputKind::Contract => 1,
        OutputKind::Change => 2,
        OutputKind::Variable => 3,
        OutputKind::ContractCreated => 4,
    }
}

/// What the VM reads of a transaction input: its kind, where it starts within the
/// serialized transaction, where its fields start within it, and the values of its
/// fields; a field that the input does not have is `None`.
#[derive(Debug, Clone, Copy, PartialEq, Eq)]
pub struct InputFields {
    /// Kind of the input.
    pub kind: InputKind,
    /// Offset of the input within the transaction.
    pub offset: usize,
    /// Offset of the UTXO id within the input.
    pub utxo_id_offset: Option<usize>,
    /// Offset of the owner within the input.
    pub owner_offset: Option<usize>,
    /// Offset of the asset id within the input.
    pub asset_id_offset: Option<usize>,
    /// Offset of the transaction pointer within the input.
    pub tx_pointer_offset: Option<usize>,
    /// Offset of the contract id within the input.
    pub contract_id_offset: Option<usize>,
    /// Offset of the message sender within the input.
    pub sender_offset: Option<usize>,
    /// Offset of the message recipient within the input.
    pub recipient_offset: Option<usize>,
    /// Offset of the message nonce within the input.
    pub nonce_offset: Option<usize>,
    /// Offset of the message data within the input.
    pub data_offset: Option<usize>,
    /// Offset of the predicate within the input.
    pub predicate_offset: Option<usize>,
    /// Offset of the predicate data within the input.
    pub predicate_data_offset: Option<usize>,
    /// Output index of the UTXO id.
    pub output_index: Option<u64>,
    /// Amount.
    pub amount: Option<u64>,
    /// Index of the witness.
    pub witness_index: Option<u64>,
    /// Length of the message data.
    pub data_len: Option<u64>,
    /// Length of the predicate.
    pub predicate_len: Option<u64>,
    /// Length of the predicate data.
    pub predicate_data_len: Option<u64>,
    /// Gas that the predicate uses.
    pub predicate_gas_used: Option<u64>,
}

/// The offsets of input fields that the VM hands out as addresses.
#[derive(Debug, Clone, Copy, PartialEq, Eq, Structural)]
pub enum InputOffset {
    /// The UTXO id.
    UtxoId,
    /// The owner.
    Owner,
    /// The asset id.
    AssetId,
    /// The transaction pointer.
    TxPointer,
    /// The contract id.
    ContractId,
    /// The message sender.
    Sender,
    /// The message recipient.
    Recipient,
    /// The message nonce.
    Nonce,
    /// The message data.
    Data,
    /// The predicate.
    Predicate,
    /// The predicate data.
    PredicateData,
}

/// The input fields that the VM hands out as values.
#[derive(Debug, Clone, Copy, PartialEq, Eq, Structural)]
pub enum InputValue {
    /// Output index of the UTXO id.
    OutputIndex,
    /// Amount.
    Amount,
    /// Index of the witness.
    WitnessIndex,
    /// Length of the message data.
    DataLen,
    /// Length of the predicate.
    PredicateLen,
    /// Length of the predicate data.
    PredicateDataLen,
    /// Gas that the predicate uses.
    PredicateGasUsed,
}

impl InputFields {
    /// The offset of field `f` within the input.
    pub open spec fn spec_offset_of(self, f: InputOffset) -> Option<usize> {
        match f {
            InputOffset::UtxoId => self.utxo_id_offset,
            InputOffset::Owner => self.owner_offset,
            InputOffset::AssetId => self.asset_id_offset,
            InputOffset::TxPointer => self.tx_pointer_offset,
            InputOffset::ContractId => self.contract_id_offset,
            InputOffset::Sender => self.sender_offset,
            InputOffset::Recipient => self.recipient_offset,
            InputOffset::Nonce => self.nonce_offset,
            InputOffset::Data => self.data_offset,
            InputOffset::Predicate => self.predicate_offset,
            InputOffset::PredicateData => self.predicate_data_offset,
        }
    }

    /// The value of field `f`.
    pub open spec fn spec_value_of(self, f: InputValue) -> Option<u64> {
        match f {
            InputValue::OutputIndex => self.output_index,
            InputValue::Amount => self.amount,
            InputValue::WitnessIndex => self.witness_index,
            InputValue::DataLen => self.data_len,
            InputValue::PredicateLen => self.predicate_len,
            InputValue::PredicateDataLen => self.predicate_data_len,
            InputValue::PredicateGasUsed => self.predicate_gas_used,
        }
    }

    /// The offset of field `f` within the input.
    pub fn offset_of(&self, f: InputOffset) -> (r: Option<usize>)
        ensures
            r == self.spec_offset_of(f),
    {
        match f {
            InputOffset::UtxoId => self.utxo_id_offset,
            InputOffset::Owner => self.owner_offset,
            InputOffset::AssetId => self.asset_id_offset,
            InputOffset::TxPointer => self.tx_pointer_offset,
            InputOffset::ContractId => self.contract_id_offset,
            InputOffset::Sender => self.sender_offset,
            InputOffset::Recipient => self.recipient_offset,
            InputOffset::Nonce => self.nonce_offset,
            InputOffset::Data => self.data_offset,
            InputOffset::Predicate => self.predicate_offset,
            InputOffset::PredicateData => self.predicate_data_offset,
        }
    }

    /// The value of field `f`.
    pub fn value_of(&self, f: InputValue) -> (r: Option<u64>)
        ensures
            r == self.spec_value_of(f),
    {
        match f {
            InputValue::OutputIndex => self.output_index,
            InputValue::Amount => self.amount,
            InputValue::WitnessIndex => self.witness_index,
            InputValue::DataLen => self.data_len,
            InputValue::PredicateLen => self.predicate_len,
            InputValue::PredicateDataLen => self.predicate_data_len,
            InputValue::PredicateGasUsed => self.predicate_gas_used,
        }
    }
}

/// What the VM reads of a transaction output: its kind, where it starts within the
/// serialized transaction, where its fields start within it, and the values of its
/// fields; a field that the output does not have is `None`.
#[derive(Debug, Clone, Copy, PartialEq, Eq)]
pub struct OutputFields {
    /// Kind of the output.
    pub kind: OutputKind,
    /// Offset of the output within the transaction.
    pub offset: usize,
    /// Offset of the recipient within the output.
    pub to_offset: Option<usize>,
    /// Offset of the asset id within the output.
    pub asset_id_offset: Option<usize>,
    /// Offset of the created contract's id within the output.
    pub contract_id_offset: Option<usize>,
    /// Offset of the created contract's state root within the output.
    pub state_root_offset: Option<usize>,
    /// Amount.
    pub amount: Option<u64>,
    /// Index of the contract input whose state the output holds.
    pub input_index: Option<u64>,
}

/// What the VM reads of a witness: the length of its data and where it starts
/// within the serialized transaction.
#[derive(Debug, Clone, Copy, PartialEq, Eq)]
pub struct WitnessFields {
    /// Length of the witness data.
    pub len: u64,
    /// Offset of the witness within the transaction.
    pub offset: usize,
}

/// What the VM reads of a script transaction.
#[derive(Debug, Clone, Copy, PartialEq, Eq)]
pub struct ScriptFields {
    /// Length of the script.
    pub script_len: u64,
    /// Length of the script data.
    pub script_data_len: u64,
    /// Offset of the script within the transaction.
    pub script_offset: usize,
    /// Offset of the script data within the transaction.
    pub script_data_offset: usize,
}

/// What the VM reads of a create transaction.
#[derive(Debug, Clone, PartialEq, Eq)]
pub struct CreateFields {
    /// Index of the witness that holds the bytecode.
    pub bytecode_witness_index: u64,
    /// Offset of the salt within the transaction.
    pub salt_offset: usize,
    /// Offsets of the storage slots within the transaction.
    pub storage_slot_offsets: Vec<usize>,
}

/// What the transaction field instruction reads of the running transaction, as
/// plain values: its type, gas limit and policies, its inputs, outputs and
/// witnesses, the fields of a script or a create transaction, the output index of
/// each contract input, its size and its address in memory.
#[derive(Debug, Clone)]
pub struct TxFields {
    /// The number of the transaction type.
    pub tx_type: u64,
    /// Gas limit of a script, zero for other transactions.
    pub script_gas_limit: u64,
    /// Bits of the policies that the transaction sets.
    pub policy_types: u64,
    /// The tip, if set.
    pub tip: Option<u64>,
    /// The witness limit, if set.
    pub witness_limit: Option<u64>,
    /// The maturity, if set.
    pub maturity: Option<u64>,
    /// The maximum fee, if set.
    pub max_fee: Option<u64>,
    /// The inputs.
    pub inputs: Vec<InputFields>,
    /// The outputs.
    pub outputs: Vec<OutputFields>,
    /// The witnesses.
    pub witnesses: Vec<WitnessFields>,
    /// The fields of a script transaction.
    pub script: Option<ScriptFields>,
    /// The fields of a create transaction.
    pub create: Option<CreateFields>,
    /// For contract inputs, their index and the index of their output, each index once.
    pub contract_output_index: Vec<(u16, u16)>,
    /// Size of the serialized transaction.
    pub tx_size: u64,
    /// Address of the transaction in memory.
    pub tx_offset: usize,
}

/// `a + b`, saturating at the largest address.
pub open spec fn sat_usize(a: int, b: int) -> int {
    if a + b > usize::MAX { usize::MAX as int } else { a + b }
}

/// The output index stored for contract input `key`, the first entry with that key.
pub open spec fn index_lookup(entries: Seq<(u16, u16)>, key: u16) -> Option<u16>
    decreases entries.len(),
{
    if entries.len() == 0 {
        None
    } else if entries[0].0 == key {
        Some(entries[0].1)
    } else {
        index_lookup(entries.drop_first(), key)
    }
}

/// The memory address of field `f` of input `b`, which must be of kind `kind`.
pub open spec fn input_address(tx: TxFields, b: int, kind: InputKind, f: InputOffset) -> Result<u64, PanicReason> {
    if 0 <= b < tx.inputs@.len() && tx.inputs@[b].kind == kind && tx.inputs@[b].spec_offset_of(f) is Some {
        let i = tx.inputs@[b];
        Ok(sat_usize(tx.tx_offset as int, sat_usize(i.offset as int, i.spec_offset_of(f)->0 as int)) as u64)
    } else {
        Err(PanicReason::InputNotFound)
    }
}

/// The value of field `f` of input `b`, which must be of kind `kind`.
pub open spec fn input_value(tx: TxFields, b: int, kind: InputKind, f: InputValue) -> Result<u64, PanicReason> {
    if 0 <= b < tx.inputs@.len() && tx.inputs@[b].kind == kind && tx.inputs@[b].spec_value_of(f) is Some {
        Ok(tx.inputs@[b].spec_value_of(f)->0)
    } else {
        Err(PanicReason::InputNotFound)
    }
}

/// The memory address of a field of output `b`: `created` selects the id (`false`
/// for the recipient or the asset id of a coin or change output, `true` for the
/// contract id or state root of a created contract).
pub open spec fn output_address(tx: TxFields, b: int, created: bool, field: Option<usize>) -> Result<u64, PanicReason> {
    if 0 <= b < tx.outputs@.len() && field is Some && (if created {
        tx.outputs@[b].kind == OutputKind::ContractCreated
    } else {
        tx.outputs@[b].kind == OutputKind::Coin || tx.outputs@[b].kind == OutputKind::Change
    }) {
        Ok(sat_usize(tx.tx_offset as int, sat_usize(tx.outputs@[b].offset as int, field->0 as int)) as u64)
    } else {
        Err(PanicReason::OutputNotFound)
    }
}

/// `tx_offset + offset` as an address, saturating.
pub open spec fn tx_address(tx: TxFields, offset: int) -> u64 {
    sat_usize(tx.tx_offset as int, offset) as u64
}

/// The value that the transaction field instruction gives for selector `imm` and
/// index `b`, or why it fails.
pub open spec fn gtf_value_spec(tx: TxFields, b: u64, imm: u16) -> Result<u64, PanicReason> {
    if b > usize::MAX {
        Err(PanicReason::InvalidMetadataIdentifier)
    } else {
        let bi = b as int;
        let ilen = tx.inputs@.len();
        let olen = tx.outputs@.len();
        let wlen = tx.witnesses@.len();
        match imm {
            0x001 => Ok(tx.tx_type),
            0x002 => Ok(tx.script_gas_limit),
            0x500 => Ok(tx.policy_types),
            0x501 => if tx.tip is Some { Ok(tx.tip->0) } else { Err(PanicReason::PolicyIsNotSet) },
            0x502 => if tx.witness_limit is Some { Ok(tx.witness_limit->0) } else { Err(PanicReason::PolicyIsNotSet) },
            0x503 => if tx.maturity is Some { Ok(tx.maturity->0) } else { Err(PanicReason::PolicyIsNotSet) },
            0x504 => if tx.max_fee is Some { Ok(tx.max_fee->0) } else { Err(PanicReason::PolicyIsNotSet) },
            0x005 | 0x103 => Ok(ilen as u64),
            0x006 | 0x104 => Ok(olen as u64),
            0x007 | 0x105 => Ok(wlen as u64),
            0x00B | 0x108 => if bi < ilen { Ok(tx_address(tx, tx.inputs@[bi].offset as int)) } else {
                Err(PanicReason::InputNotFound)
            },
            0x00C | 0x109 => if bi < olen { Ok(tx_address(tx, tx.outputs@[bi].offset as int)) } else {
                Err(PanicReason::OutputNotFound)
            },
            0x00D | 0x10A => if bi < wlen { Ok(tx_address(tx, tx.witnesses@[bi].offset as int)) } else {
                Err(PanicReason::WitnessNotFound)
            },
            0x00E => Ok(tx.tx_size),
            0x200 => if bi < ilen { Ok(input_repr(tx.inputs@[bi].kind)) } else { Err(PanicReason::InputNotFound) },
            0x201 => input_address(tx, bi, InputKind::Coin, InputOffset::UtxoId),
            0x202 => input_value(tx, bi, InputKind::Coin, InputValue::OutputIndex),
            0x203 => input_address(tx, bi, InputKind::Coin, InputOffset::Owner),
            0x204 => input_value(tx, bi, InputKind::Coin, InputValue::Amount),
            0x205 => input_address(tx, bi, InputKind::Coin, InputOffset::AssetId),
            0x206 => input_address(tx, bi, InputKind::Coin, InputOffset::TxPointer),
            0x207 => input_value(tx, bi, InputKind::Coin, InputValue::WitnessIndex),
            0x209 => input_value(tx, bi, InputKind::Coin, InputValue::PredicateLen),
            0x20A => input_value(tx, bi, InputKind::Coin, InputValue::PredicateDataLen),
            0x20B => input_address(tx, bi, InputKind::Coin, InputOffset::Predicate),
            0x20C => input_address(tx, bi, InputKind::Coin, InputOffset::PredicateData),
            0x20D => input_value(tx, bi, InputKind::Coin, InputValue::PredicateGasUsed),
            0x220 => input_address(tx, bi, InputKind::Contract, InputOffset::UtxoId),
            0x221 => if b > 0xFFFF {
                Err(PanicReason::InvalidMetadataIdentifier)
            } else {
                match index_lookup(tx.contract_output_index@, b as u16) {
                    Some(o) => Ok(o as u64),
                    None => Err(PanicReason::InputNotFound),
                }
            },
            0x225 => input_address(tx, bi, InputKind::Contract, InputOffset::ContractId),
            0x240 => input_address(tx, bi, InputKind::Message, InputOffset::Sender),
            0x241 => input_address(tx, bi, InputKind::Message, InputOffset::Recipient),
            0x242 => input_value(tx, bi, InputKind::Message, InputValue::Amount),
            0x243 => input_address(tx, bi, InputKind::Message, InputOffset::Nonce),
            0x244 => input_value(tx, bi, InputKind::Message, InputValue::WitnessIndex),
            0x245 => input_value(tx, bi, InputKind::Message, InputValue::DataLen),
            0x246 => input_value(tx, bi, InputKind::Message, InputValue::PredicateLen),
            0x247 => input_value(tx, bi, InputKind::Message, InputValue::PredicateDataLen),
            0x248 => input_address(tx, bi, InputKind::Message, InputOffset::Data),
            0x249 => input_address(tx, bi, InputKind::Message, InputOffset::Predicate),
            0x24A => input_address(tx, bi, InputKind::Message, InputOffset::PredicateData),
            0x24B => input_value(tx, bi, InputKind::Message, InputValue::PredicateGasUsed),
            0x300 => if bi < olen { Ok(output_repr(tx.outputs@[bi].kind)) } else { Err(PanicReason::OutputNotFound) },
            0x301 => output_address(tx, bi, false, if bi < olen { tx.outputs@[bi].to_offset } else { None }),
            0x302 => if bi < olen && tx.outputs@[bi].kind == OutputKind::Coin && tx.outputs@[bi].amount is Some {
                Ok(tx.outputs@[bi].amount->0)
            } else {
                Err(PanicReason::OutputNotFound)
            },
            0x303 => output_address(tx, bi, false, if bi < olen { tx.outputs@[bi].asset_id_offset } else { None }),
            0x304 => if bi < olen && tx.outputs@[bi].kind == OutputKind::Contract && tx.outputs@[bi].input_index is Some {
                Ok(tx.outputs@[bi].input_index->0)
            } else {
                Err(PanicReason::InputNotFound)
            },
            0x307 => output_address(tx, bi, true, if bi < olen { tx.outputs@[bi].contract_id_offset } else { None }),
            0x308 => output_address(tx, bi, true, if bi < olen { tx.outputs@[bi].state_root_offset } else { None }),
            0x400 => if bi < wlen { Ok(tx.witnesses@[bi].len) } else { Err(PanicReason::WitnessNotFound) },
            0x401 => if bi < wlen {
                Ok(sat_usize(sat_usize(tx.tx_offset as int, tx.witnesses@[bi].offset as int), WORD_SIZE as int) as u64)
            } else {
                Err(PanicReason::WitnessNotFound)
            },
            0x003 => if tx.script is Some && tx.create is None { Ok(tx.script->0.script_len) } else {
                Err(PanicReason::InvalidMetadataIdentifier)
            },
            0x004 => if tx.script is Some && tx.create is None { Ok(tx.script->0.script_data_len) } else {
                Err(PanicReason::InvalidMetadataIdentifier)
            },
            0x009 => if tx.script is Some && tx.create is None { Ok(tx_address(tx, tx.script->0.script_offset as int)) } else {
                Err(PanicReason::InvalidMetadataIdentifier)
            },
            0x00A => if tx.script is Some && tx.create is None {
                Ok(tx_address(tx, tx.script->0.script_data_offset as int))
            } else {
                Err(PanicReason::InvalidMetadataIdentifier)
            },
            0x101 => if tx.script is None && tx.create is Some { Ok(tx.create->0.bytecode_witness_index) } else {
                Err(PanicReason::InvalidMetadataIdentifier)
            },
            0x102 => if tx.script is None && tx.create is Some {
                Ok(tx.create->0.storage_slot_offsets@.len() as u64)
            } else {
                Err(PanicReason::InvalidMetadataIdentifier)
            },
            0x106 => if tx.script is None && tx.create is Some { Ok(tx_address(tx, tx.create->0.salt_offset as int)) } else {
                Err(PanicReason::InvalidMetadataIdentifier)
            },
            0x107 => if tx.script is None && tx.create is Some {
                let slots = tx.create->0.storage_slot_offsets@;
                Ok(tx_address(tx, if bi < slots.len() { slots[bi] as int } else { 0 }))
            } else {
                Err(PanicReason::InvalidMetadataIdentifier)
            },
            _ => Err(PanicReason::InvalidMetadataIdentifier),
        }
    }
}

/// `a + b`, saturating at the largest address.
fn sat_add(a: usize, b: usize) -> (r: usize)
    ensures
        r == sat_usize(a as int, b as int),
{
    if a > usize::MAX - b { usize::MAX } else { a + b }
}

/// `tx_offset + offset` as an address, saturating.
fn tx_address_of(tx: &TxFields, offset: usize) -> (r: u64)
    ensures
        r == tx_address(*tx, offset as int),
{
    sat_add(tx.tx_offset, offset) as u64
}

/// The memory address of field `f` of input `b`, which must be of kind `kind`.
fn input_address_of(tx: &TxFields, b: usize, kind: InputKind, f: InputOffset) -> (r: Result<u64, PanicReason>)
    ensures
        r == input_address(*tx, b as int, kind, f),
{
    if b < tx.inputs.len() && tx.inputs[b].kind == kind {
        match tx.inputs[b].offset_of(f) {
            Some(field) => Ok(sat_add(tx.tx_offset, sat_add(tx.inputs[b].offset, field)) as u64),
            None => Err(PanicReason::InputNotFound),
        }
    } else {
        Err(PanicReason::InputNotFound)
    }
}

/// The value of field `f` of input `b`, which must be of kind `kind`.
fn input_value_of(tx: &TxFields, b: usize, kind: InputKind, f: InputValue) -> (r: Result<u64, PanicReason>)
    ensures
        r == input_value(*tx, b as int, kind, f),
{
    if b < tx.inputs.len() && tx.inputs[b].kind == kind {
        match tx.inputs[b].value_of(f) {
            Some(v) => Ok(v),
            None => Err(PanicReason::InputNotFound),
        }
    } else {
        Err(PanicReason::InputNotFound)
    }
}

/// The memory address of a field of output `b`, as `output_address` says.
fn output_address_of(tx: &TxFields, b: usize, created: bool, field: Option<usize>) -> (r: Result<u64, PanicReason>)
    ensures
        r == output_address(*tx, b as int, created, field),
{
    if b >= tx.outputs.len() {
        return Err(PanicReason::OutputNotFound);
    }
    let kind = tx.outputs[b].kind;
    let kind_ok = if created {
        kind == OutputKind::ContractCreated
    } else {
        kind == OutputKind::Coin || kind == OutputKind::Change
    };
    match field {
        Some(f) => if kind_ok {
            Ok(sat_add(tx.tx_offset, sat_add(tx.outputs[b].offset, f)) as u64)
        } else {
            Err(PanicReason::OutputNotFound)
        },
        None => Err(PanicReason::OutputNotFound),
    }
}

/// The output index stored for contract input `key`.
fn lookup_index(entries: &Vec<(u16, u16)>, key: u16) -> (r: Option<u16>)
    ensures
        r == index_lookup(entries@, key),
{
    let mut i: usize = 0;
    proof {
        assert(entries@.skip(0) =~= entries@);
    }
    while i < entries.len()
        invariant
            i <= entries@.len(),
            index_lookup(entries@, key) == index_lookup(entries@.skip(i as int), key),
        decreases entries@.len() - i,
    {
        let (k, v) = entries[i];
        if k == key {
            return Some(v);
        }
        proof {
            assert(entries@.skip(i as int).drop_first() =~= entries@.skip(i + 1));
        }
        i = i + 1;
    }
    proof {
        assert(entries@.skip(i as int).len() == 0);
    }
    None
}

/// A policy value, or `PolicyIsNotSet`.
fn policy(v: Option<u64>) -> (r: Result<u64, PanicReason>)
    ensures
        r == if v is Some { Ok::<u64, PanicReason>(v->0) } else { Err::<u64, PanicReason>(PanicReason::PolicyIsNotSet) },
{
    match v {
        Some(x) => Ok(x),
        None => Err(PanicReason::PolicyIsNotSet),
    }
}

/// The value that the transaction field instruction gives for selector `imm` and
/// index `b`, or why it fails.
#[verifier::rlimit(50)]
pub fn gtf_value(tx: &TxFields, b: u64, imm: u16) -> (r: Result<u64, PanicReason>)
    ensures
        r == gtf_value_spec(*tx, b, imm),
{
    if b > usize::MAX as u64 {
        return Err(PanicReason::InvalidMetadataIdentifier);
    }
    let bi = b as usize;
    let ilen = tx.inputs.len();
    let olen = tx.outputs.len();
    let wlen = tx.witnesses.len();
    let is_script = tx.script.is_some() && tx.create.is_none();
    let is_create = tx.script.is_none() && tx.create.is_some();
    match imm {
        0x001 => Ok(tx.tx_type),
        0x002 => Ok(tx.script_gas_limit),
        0x500 => Ok(tx.policy_types),
        0x501 => policy(tx.tip),
        0x502 => policy(tx.witness_limit),
        0x503 => policy(tx.maturity),
        0x504 => policy(tx.max_fee),
        0x005 | 0x103 => Ok(ilen as u64),
        0x006 | 0x104 => Ok(olen as u64),
        0x007 | 0x105 => Ok(wlen as u64),
        0x00B | 0x108 => if bi < ilen { Ok(tx_address_of(tx, tx.inputs[bi].offset)) } else {
            Err(PanicReason::InputNotFound)
        },
        0x00C | 0x109 => if bi < olen { Ok(tx_address_of(tx, tx.outputs[bi].offset)) } else {
            Err(PanicReason::OutputNotFound)
        },
        0x00D | 0x10A => if bi < wlen { Ok(tx_address_of(tx, tx.witnesses[bi].offset)) } else {
            Err(PanicReason::WitnessNotFound)
        },
        0x00E => Ok(tx.tx_size),
        0x200 => if bi < ilen {
            Ok(match tx.inputs[bi].kind {
                InputKind::Coin => 0,
                InputKind::Contract => 1,
                InputKind::Message => 2,
            })
        } else {
            Err(PanicReason::InputNotFound)
        },
        0x201 => input_address_of(tx, bi, InputKind::Coin, InputOffset::UtxoId),
        0x202 => input_value_of(tx, bi, InputKind::Coin, InputValue::OutputIndex),
        0x203 => input_address_of(tx, bi, InputKind::Coin, InputOffset::Owner),
        0x204 => input_value_of(tx, bi, InputKind::Coin, InputValue::Amount),
        0x205 => input_address_of(tx, bi, InputKind::Coin, InputOffset::AssetId),
        0x206 => input_address_of(tx, bi, InputKind::Coin, InputOffset::TxPointer),
        0x207 => input_value_of(tx, bi, InputKind::Coin, InputValue::WitnessIndex),
        0x209 => input_value_of(tx, bi, InputKind::Coin, InputValue::PredicateLen),
        0x20A => input_value_of(tx, bi, InputKind::Coin, InputValue::PredicateDataLen),
        0x20B => input_address_of(tx, bi, InputKind::Coin, InputOffset::Predicate),
        0x20C => input_address_of(tx, bi, InputKind::Coin, InputOffset::PredicateData),
        0x20D => input_value_of(tx, bi, InputKind::Coin, InputValue::PredicateGasUsed),
        0x220 => input_address_of(tx, bi, InputKind::Contract, InputOffset::UtxoId),
        0x221 => if b > 0xFFFF {
            Err(PanicReason::InvalidMetadataIdentifier)
        } else {
            match lookup_index(&tx.contract_output_index, b as u16) {
                Some(o) => Ok(o as u64),
                None => Err(PanicReason::InputNotFound),
            }
        },
        0x225 => input_address_of(tx, bi, InputKind::Contract, InputOffset::ContractId),
        0x240 => input_address_of(tx, bi, InputKind::Message, InputOffset::Sender),
        0x241 => input_address_of(tx, bi, InputKind::Message, InputOffset::Recipient),
        0x242 => input_value_of(tx, bi, InputKind::Message, InputValue::Amount),
        0x243 => input_address_of(tx, bi, InputKind::Message, InputOffset::Nonce),
        0x244 => input_value_of(tx, bi, InputKind::Message, InputValue::WitnessIndex),
        0x245 => input_value_of(tx, bi, InputKind::Message, InputValue::DataLen),
        0x246 => input_value_of(tx, bi, InputKind::Message, InputValue::PredicateLen),
        0x247 => input_value_of(tx, bi, InputKind::Message, InputValue::PredicateDataLen),
        0x248 => input_address_of(tx, bi, InputKind::Message, InputOffset::Data),
        0x249 => input_address_of(tx, bi, InputKind::Message, InputOffset::Predicate),
        0x24A => input_address_of(tx, bi, InputKind::Message, InputOffset::PredicateData),
        0x24B => input_value_of(tx, bi, InputKind::Message, InputValue::PredicateGasUsed),
        0x300 => if bi < olen {
            Ok(match tx.outputs[bi].kind {
                OutputKind::Coin => 0,
                OutputKind::Contract => 1,
                OutputKind::Change => 2,
                OutputKind::Variable => 3,
                OutputKind::ContractCreated => 4,
            })
        } else {
            Err(PanicReason::OutputNotFound)
        },
        0x301 => output_address_of(tx, bi, false, if bi < olen { tx.outputs[bi].to_offset } else { None }),
        0x302 => if bi < olen && tx.outputs[bi].kind == OutputKind::Coin {
            match tx.outputs[bi].amount {
                Some(a) => Ok(a),
                None => Err(PanicReason::OutputNotFound),
            }
        } else {
            Err(PanicReason::OutputNotFound)
        },
        0x303 => output_address_of(tx, bi, false, if bi < olen { tx.outputs[bi].asset_id_offset } else { None }),
        0x304 => if bi < olen && tx.outputs[bi].kind == OutputKind::Contract {
            match tx.outputs[bi].input_index {
                Some(i) => Ok(i),
                None => Err(PanicReason::InputNotFound),
            }
        } else {
            Err(PanicReason::InputNotFound)
        },
        0x307 => output_address_of(tx, bi, true, if bi < olen { tx.outputs[bi].contract_id_offset } else { None }),
        0x308 => output_address_of(tx, bi, true, if bi < olen { tx.outputs[bi].state_root_offset } else { None }),
        0x400 => if bi < wlen { Ok(tx.witnesses[bi].len) } else { Err(PanicReason::WitnessNotFound) },
        0x401 => if bi < wlen {
            Ok(sat_add(sat_add(tx.tx_offset, tx.witnesses[bi].offset), WORD_SIZE) as u64)
        } else {
            Err(PanicReason::WitnessNotFound)
        },
        0x003 | 0x004 | 0x009 | 0x00A => match &tx.script {
            Some(script) => if is_script {
                Ok(match imm {
                    0x003 => script.script_len,
                    0x004 => script.script_data_len,
                    0x009 => tx_address_of(tx, script.script_offset),
                    _ => tx_address_of(tx, script.script_data_offset),
                })
            } else {
                Err(PanicReason::InvalidMetadataIdentifier)
            },
            None => Err(PanicReason::InvalidMetadataIdentifier),
        },
        0x101 | 0x102 | 0x106 | 0x107 => match &tx.create {
            Some(create) => if is_create {
                let slots = &create.storage_slot_offsets;
                Ok(match imm {
                    0x101 => create.bytecode_witness_index,
                    0x102 => slots.len() as u64,
                    0x106 => tx_address_of(tx, create.salt_offset),
                    _ => tx_address_of(tx, if bi < slots.len() { slots[bi] } else { 0 }),
                })
            } else {
                Err(PanicReason::InvalidMetadataIdentifier)
            },
            None => Err(PanicReason::InvalidMetadataIdentifier),
        },
        _ => Err(PanicReason::InvalidMetadataIdentifier),
    }
}

/// Sets `result` to the transaction field that selector `imm` and index `b` pick,
/// then advances the program counter; on failure nothing changes.
pub fn get_transaction_field(tx: &TxFields, result: &mut u64, pc: &mut u64, b: u64, imm: u16) -> (r: SimpleResult<()>)
    ensures
        match gtf_value_spec(*tx, b, imm) {
            Ok(v) => *final(result) == v && match pc_advanced(*old(pc)) {
                Ok(p) => r == Ok::<(), PanicOrBug>(()) && *final(pc) == p,
                Err(e) => r == Err::<(), PanicOrBug>(PanicOrBug::Panic(e)) && *final(pc) == *old(pc),
            },
            Err(e) => r == Err::<(), PanicOrBug>(PanicOrBug::Panic(e)) && *final(result) == *old(result)
                && *final(pc) == *old(pc),
        },
{
    match gtf_value(tx, b, imm) {
        Ok(v) => {
            *result = v;
            inc_pc_result(pc)
        },
        Err(e) => Err(PanicOrBug::Panic(e)),
    }
}


/// What an input selector that hands out an address gives for index `b`: for an
/// input `b` of kind `kind` that has the field (`field` picks where it starts within
/// the input), the transaction's address plus the input's offset plus the field's
/// offset, saturating at the largest address; otherwise the input is not found.
pub open spec fn reads_address(
    tx: TxFields,
    b: u64,
    kind: InputKind,
    field: spec_fn(InputFields) -> Option<usize>,
    r: Result<u64, PanicReason>,
) -> bool {
    if b > usize::MAX {
        r == Err::<u64, PanicReason>(PanicReason::InvalidMetadataIdentifier)
    } else if b < tx.inputs@.len() && tx.inputs@[b as int].kind == kind && field(tx.inputs@[b as int]) is Some {
        let sum = tx.tx_offset + tx.inputs@[b as int].offset + field(tx.inputs@[b as int])->0;
        r == Ok::<u64, PanicReason>(if sum <= usize::MAX { sum as u64 } else { usize::MAX as u64 })
    } else {
        r == Err::<u64, PanicReason>(PanicReason::InputNotFound)
    }
}

/// What an input selector that hands out a value gives for index `b`: the value
/// `field` picks of input `b` when that input is of kind `kind` and has it;
/// otherwise the input is not found.
pub open spec fn reads_value(
    tx: TxFields,
    b: u64,
    kind: InputKind,
    field: spec_fn(InputFields) -> Option<u64>,
    r: Result<u64, PanicReason>,
) -> bool {
    if b > usize::MAX {
        r == Err::<u64, PanicReason>(PanicReason::InvalidMetadataIdentifier)
    } else if b < tx.inputs@.len() && tx.inputs@[b as int].kind == kind && field(tx.inputs@[b as int]) is Some {
        r == Ok::<u64, PanicReason>(field(tx.inputs@[b as int])->0)
    } else {
        r == Err::<u64, PanicReason>(PanicReason::InputNotFound)
    }
}

/// Each input selector of the transaction field instruction reads the field that it
/// names of input `b`, and only of an input of the kind it names: the coin's UTXO id,
/// output index, owner, amount, asset id, transaction pointer, witness index,
/// predicate lengths, predicate, predicate data and predicate gas; the contract's
/// UTXO id and contract id; the message's sender, recipient, amount, nonce, witness
/// index, data length, predicate lengths, data, predicate, predicate data and
/// predicate gas. So the sender and the recipient of a message, whose fields start
/// at different offsets, are told apart.
pub proof fn law_input_fields(tx: TxFields, b: u64)
    ensures
        reads_address(tx, b, InputKind::Coin, |i: InputFields| i.utxo_id_offset, gtf_value_spec(tx, b, 0x201)),
        reads_value(tx, b, InputKind::Coin, |i: InputFields| i.output_index, gtf_value_spec(tx, b, 0x202)),
        reads_address(tx, b, InputKind::Coin, |i: InputFields| i.owner_offset, gtf_value_spec(tx, b, 0x203)),
        reads_value(tx, b, InputKind::Coin, |i: InputFields| i.amount, gtf_value_spec(tx, b, 0x204)),
        reads_address(tx, b, InputKind::Coin, |i: InputFields| i.asset_id_offset, gtf_value_spec(tx, b, 0x205)),
        reads_address(tx, b, InputKind::Coin, |i: InputFields| i.tx_pointer_offset, gtf_value_spec(tx, b, 0x206)),
        reads_value(tx, b, InputKind::Coin, |i: InputFields| i.witness_index, gtf_value_spec(tx, b, 0x207)),
        reads_value(tx, b, InputKind::Coin, |i: InputFields| i.predicate_len, gtf_value_spec(tx, b, 0x209)),
        reads_value(tx, b, InputKind::Coin, |i: InputFields| i.predicate_data_len, gtf_value_spec(tx, b, 0x20A)),
        reads_address(tx, b, InputKind::Coin, |i: InputFields| i.predicate_offset, gtf_value_spec(tx, b, 0x20B)),
        reads_address(tx, b, InputKind::Coin, |i: InputFields| i.predicate_data_offset, gtf_value_spec(tx, b, 0x20C)),
        reads_value(tx, b, InputKind::Coin, |i: InputFields| i.predicate_gas_used, gtf_value_spec(tx, b, 0x20D)),
        reads_address(tx, b, InputKind::Contract, |i: InputFields| i.utxo_id_offset, gtf_value_spec(tx, b, 0x220)),
        reads_address(tx, b, InputKind::Contract, |i: InputFields| i.contract_id_offset, gtf_value_spec(tx, b, 0x225)),
        reads_address(tx, b, InputKind::Message, |i: InputFields| i.sender_offset, gtf_value_spec(tx, b, 0x240)),
        reads_address(tx, b, InputKind::Message, |i: InputFields| i.recipient_offset, gtf_value_spec(tx, b, 0x241)),
        reads_value(tx, b, InputKind::Message, |i: InputFields| i.amount, gtf_value_spec(tx, b, 0x242)),
        reads_address(tx, b, InputKind::Message, |i: InputFields| i.nonce_offset, gtf_value_spec(tx, b, 0x243)),
        reads_value(tx, b, InputKind::Message, |i: InputFields| i.witness_index, gtf_value_spec(tx, b, 0x244)),
        reads_value(tx, b, InputKind::Message, |i: InputFields| i.data_len, gtf_value_spec(tx, b, 0x245)),
        reads_value(tx, b, InputKind::Message, |i: InputFields| i.predicate_len, gtf_value_spec(tx, b, 0x246)),
        reads_value(tx, b, InputKind::Message, |i: InputFields| i.predicate_data_len, gtf_value_spec(tx, b, 0x247)),
        reads_address(tx, b, InputKind::Message, |i: InputFields| i.data_offset, gtf_value_spec(tx, b, 0x248)),
        reads_address(tx, b, InputKind::Message, |i: InputFields| i.predicate_offset, gtf_value_spec(tx, b, 0x249)),
        reads_address(tx, b, InputKind::Message, |i: InputFields| i.predicate_data_offset, gtf_value_spec(tx, b, 0x24A)),
        reads_value(tx, b, InputKind::Message, |i: InputFields| i.predicate_gas_used, gtf_value_spec(tx, b, 0x24B)),
        b <= usize::MAX && b < tx.inputs@.len() && tx.inputs@[b as int].kind == InputKind::Message
            && tx.inputs@[b as int].sender_offset is Some && tx.inputs@[b as int].recipient_offset is Some
            && tx.inputs@[b as int].sender_offset != tx.inputs@[b as int].recipient_offset
            && tx.tx_offset + tx.inputs@[b as int].offset + tx.inputs@[b as int].sender_offset->0 < usize::MAX
            && tx.tx_offset + tx.inputs@[b as int].offset + tx.inputs@[b as int].recipient_offset->0 < usize::MAX
            ==> gtf_value_spec(tx, b, 0x240) != gtf_value_spec(tx, b, 0x241),
{
    if b < tx.inputs@.len() && tx.inputs@[b as int].sender_offset is Some && tx.inputs@[b as int].recipient_offset is Some
        && tx.inputs@[b as int].sender_offset != tx.inputs@[b as int].recipient_offset {
        assert(tx.inputs@[b as int].sender_offset->0 != tx.inputs@[b as int].recipient_offset->0);
    }
}

/// An address: `sum` where it fits, the largest address otherwise.
pub open spec fn capped(sum: int) -> u64 {
    if sum <= usize::MAX { sum as u64 } else { usize::MAX as u64 }
}

/// What an output selector that hands out an address gives for index `b`: for an
/// output `b` that `kind_ok` accepts and that has the field (`field` picks where it
/// starts within the output), the transaction's address plus the output's offset
/// plus the field's offset; otherwise the output is not found.
pub open spec fn reads_output_address(
    tx: TxFields,
    b: u64,
    kind_ok: spec_fn(OutputKind) -> bool,
    field: spec_fn(OutputFields) -> Option<usize>,
    r: Result<u64, PanicReason>,
) -> bool {
    if b > usize::MAX {
        r == Err::<u64, PanicReason>(PanicReason::InvalidMetadataIdentifier)
    } else if b < tx.outputs@.len() && kind_ok(tx.outputs@[b as int].kind) && field(tx.outputs@[b as int]) is Some {
        r == Ok::<u64, PanicReason>(capped(tx.tx_offset + tx.outputs@[b as int].offset + field(tx.outputs@[b as int])->0))
    } else {
        r == Err::<u64, PanicReason>(PanicReason::OutputNotFound)
    }
}

/// The output, witness and whole-transaction selectors of the transaction field
/// instruction: the kind, recipient, amount, asset id and contract input index of an
/// output, the id and state root of a created contract; the length of a witness and
/// the address of its data, past its length word; the addresses of input, output and
/// witness `b`; the counts of inputs, outputs and witnesses, the type, gas limit and
/// size of the transaction.
pub proof fn law_output_and_witness_fields(tx: TxFields, b: u64)
    requires
        b <= usize::MAX,
    ensures
        gtf_value_spec(tx, b, 0x300) == if b < tx.outputs@.len() {
            Ok::<u64, PanicReason>(match tx.outputs@[b as int].kind {
                OutputKind::Coin => 0u64,
                OutputKind::Contract => 1u64,
                OutputKind::Change => 2u64,
                OutputKind::Variable => 3u64,
                OutputKind::ContractCreated => 4u64,
            })
        } else {
            Err(PanicReason::OutputNotFound)
        },
        reads_output_address(tx, b, |k: OutputKind| k == OutputKind::Coin || k == OutputKind::Change,
            |o: OutputFields| o.to_offset, gtf_value_spec(tx, b, 0x301)),
        gtf_value_spec(tx, b, 0x302) == if b < tx.outputs@.len() && tx.outputs@[b as int].kind == OutputKind::Coin
            && tx.outputs@[b as int].amount is Some {
            Ok::<u64, PanicReason>(tx.outputs@[b as int].amount->0)
        } else {
            Err(PanicReason::OutputNotFound)
        },
        reads_output_address(tx, b, |k: OutputKind| k == OutputKind::Coin || k == OutputKind::Change,
            |o: OutputFields| o.asset_id_offset, gtf_value_spec(tx, b, 0x303)),
        gtf_value_spec(tx, b, 0x304) == if b < tx.outputs@.len() && tx.outputs@[b as int].kind == OutputKind::Contract
            && tx.outputs@[b as int].input_index is Some {
            Ok::<u64, PanicReason>(tx.outputs@[b as int].input_index->0)
        } else {
            Err(PanicReason::InputNotFound)
        },
        reads_output_address(tx, b, |k: OutputKind| k == OutputKind::ContractCreated,
            |o: OutputFields| o.contract_id_offset, gtf_value_spec(tx, b, 0x307)),
        reads_output_address(tx, b, |k: OutputKind| k == OutputKind::ContractCreated,
            |o: OutputFields| o.state_root_offset, gtf_value_spec(tx, b, 0x308)),
        gtf_value_spec(tx, b, 0x400) == if b < tx.witnesses@.len() {
            Ok::<u64, PanicReason>(tx.witnesses@[b as int].len)
        } else {
            Err(PanicReason::WitnessNotFound)
        },
        gtf_value_spec(tx, b, 0x401) == if b < tx.witnesses@.len() {
            Ok::<u64, PanicReason>(capped(tx.tx_offset + tx.witnesses@[b as int].offset + 8))
        } else {
            Err(PanicReason::WitnessNotFound)
        },
        gtf_value_spec(tx, b, 0x00B) == gtf_value_spec(tx, b, 0x108),
        gtf_value_spec(tx, b, 0x108) == if b < tx.inputs@.len() {
            Ok::<u64, PanicReason>(capped(tx.tx_offset + tx.inputs@[b as int].offset))
        } else {
            Err(PanicReason::InputNotFound)
        },
        gtf_value_spec(tx, b, 0x00C) == gtf_value_spec(tx, b, 0x109),
        gtf_value_spec(tx, b, 0x109) == if b < tx.outputs@.len() {
            Ok::<u64, PanicReason>(capped(tx.tx_offset + tx.outputs@[b as int].offset))
        } else {
            Err(PanicReason::OutputNotFound)
        },
        gtf_value_spec(tx, b, 0x00D) == gtf_value_spec(tx, b, 0x10A),
        gtf_value_spec(tx, b, 0x10A) == if b < tx.witnesses@.len() {
            Ok::<u64, PanicReason>(capped(tx.tx_offset + tx.witnesses@[b as int].offset))
        } else {
            Err(PanicReason::WitnessNotFound)
        },
        gtf_value_spec(tx, b, 0x005) == Ok::<u64, PanicReason>(tx.inputs@.len() as u64),
        gtf_value_spec(tx, b, 0x103) == Ok::<u64, PanicReason>(tx.inputs@.len() as u64),
        gtf_value_spec(tx, b, 0x006) == Ok::<u64, PanicReason>(tx.outputs@.len() as u64),
        gtf_value_spec(tx, b, 0x104) == Ok::<u64, PanicReason>(tx.outputs@.len() as u64),
        gtf_value_spec(tx, b, 0x007) == Ok::<u64, PanicReason>(tx.witnesses@.len() as u64),
        gtf_value_spec(tx, b, 0x105) == Ok::<u64, PanicReason>(tx.witnesses@.len() as u64),
        gtf_value_spec(tx, b, 0x001) == Ok::<u64, PanicReason>(tx.tx_type),
        gtf_value_spec(tx, b, 0x002) == Ok::<u64, PanicReason>(tx.script_gas_limit),
        gtf_value_spec(tx, b, 0x00E) == Ok::<u64, PanicReason>(tx.tx_size),
{
}

/// The script, create and policy selectors of the transaction field instruction: a
/// script transaction's script and script data lengths and addresses, a create
/// transaction's bytecode witness index, number of storage slots, salt address and
/// storage slot addresses (each only of its kind of transaction), the policy bits and
/// each policy's value where it is set, and the output index stored for a contract
/// input.
pub proof fn law_script_create_and_policy_fields(tx: TxFields, b: u64)
    requires
        b <= usize::MAX,
    ensures
        ({
            let script = tx.script is Some && tx.create is None;
            let s = tx.script->0;
            &&& gtf_value_spec(tx, b, 0x003) == if script { Ok::<u64, PanicReason>(s.script_len) } else {
                Err(PanicReason::InvalidMetadataIdentifier)
            }
            &&& gtf_value_spec(tx, b, 0x004) == if script { Ok::<u64, PanicReason>(s.script_data_len) } else {
                Err(PanicReason::InvalidMetadataIdentifier)
            }
            &&& gtf_value_spec(tx, b, 0x009) == if script {
                Ok::<u64, PanicReason>(capped(tx.tx_offset + s.script_offset))
            } else {
                Err(PanicReason::InvalidMetadataIdentifier)
            }
            &&& gtf_value_spec(tx, b, 0x00A) == if script {
                Ok::<u64, PanicReason>(capped(tx.tx_offset + s.script_data_offset))
            } else {
                Err(PanicReason::InvalidMetadataIdentifier)
            }
        }),
        ({
            let create = tx.script is None && tx.create is Some;
            let c = tx.create->0;
            &&& gtf_value_spec(tx, b, 0x101) == if create { Ok::<u64, PanicReason>(c.bytecode_witness_index) } else {
                Err(PanicReason::InvalidMetadataIdentifier)
            }
            &&& gtf_value_spec(tx, b, 0x102) == if create {
                Ok::<u64, PanicReason>(c.storage_slot_offsets@.len() as u64)
            } else {
                Err(PanicReason::InvalidMetadataIdentifier)
            }
            &&& gtf_value_spec(tx, b, 0x106) == if create { Ok::<u64, PanicReason>(capped(tx.tx_offset + c.salt_offset)) } else {
                Err(PanicReason::InvalidMetadataIdentifier)
            }
            &&& create && b < c.storage_slot_offsets@.len() ==> gtf_value_spec(tx, b, 0x107)
                == Ok::<u64, PanicReason>(capped(tx.tx_offset + c.storage_slot_offsets@[b as int]))
            &&& !create ==> gtf_value_spec(tx, b, 0x107) == Err::<u64, PanicReason>(PanicReason::InvalidMetadataIdentifier)
        }),
        gtf_value_spec(tx, b, 0x500) == Ok::<u64, PanicReason>(tx.policy_types),
        gtf_value_spec(tx, b, 0x501) == if tx.tip is Some { Ok::<u64, PanicReason>(tx.tip->0) } else {
            Err(PanicReason::PolicyIsNotSet)
        },
        gtf_value_spec(tx, b, 0x502) == if tx.witness_limit is Some { Ok::<u64, PanicReason>(tx.witness_limit->0) } else {
            Err(PanicReason::PolicyIsNotSet)
        },
        gtf_value_spec(tx, b, 0x503) == if tx.maturity is Some { Ok::<u64, PanicReason>(tx.maturity->0) } else {
            Err(PanicReason::PolicyIsNotSet)
        },
        gtf_value_spec(tx, b, 0x504) == if tx.max_fee is Some { Ok::<u64, PanicReason>(tx.max_fee->0) } else {
            Err(PanicReason::PolicyIsNotSet)
        },
        b <= 0xFFFF ==> gtf_value_spec(tx, b, 0x221) == match index_lookup(tx.contract_output_index@, b as u16) {
            Some(o) => Ok::<u64, PanicReason>(o as u64),
            None => Err(PanicReason::InputNotFound),
        },
{
}
} // verus!
