use fuel_vm::error::{PanicOrBug, PanicReason};
use fuel_vm::metadata::{
    get_transaction_field, gtf_value, CreateFields, InputFields, InputKind, OutputFields, OutputKind, ScriptFields,
    TxFields, WitnessFields,
};

fn coin(offset: usize, amount: u64) -> InputFields {
    InputFields {
        kind: InputKind::Coin,
        offset,
        utxo_id_offset: Some(0),
        owner_offset: Some(34),
        asset_id_offset: Some(74),
        tx_pointer_offset: Some(106),
        contract_id_offset: None,
        sender_offset: None,
        recipient_offset: None,
        nonce_offset: None,
        data_offset: None,
        predicate_offset: Some(200),
        predicate_data_offset: Some(240),
        output_index: Some(3),
        amount: Some(amount),
        witness_index: Some(1),
        data_len: None,
        predicate_len: Some(40),
        predicate_data_len: Some(8),
        predicate_gas_used: Some(1000),
    }
}

fn contract(offset: usize) -> InputFields {
    InputFields {
        kind: InputKind::Contract,
        contract_id_offset: Some(96),
        owner_offset: None,
        asset_id_offset: None,
        tx_pointer_offset: Some(64),
        predicate_offset: None,
        predicate_data_offset: None,
        amount: None,
        witness_index: None,
        predicate_len: None,
        predicate_data_len: None,
        predicate_gas_used: None,
        ..coin(offset, 0)
    }
}

fn script_tx() -> TxFields {
    TxFields {
        tx_type: 0,
        script_gas_limit: 1_000_000,
        policy_types: 0b1001,
        tip: Some(5),
        witness_limit: None,
        maturity: None,
        max_fee: Some(77),
        inputs: vec![coin(500, 1234), contract(800)],
        outputs: vec![
            OutputFields {
                kind: OutputKind::Coin,
                offset: 1000,
                to_offset: Some(0),
                asset_id_offset: Some(40),
                contract_id_offset: None,
                state_root_offset: None,
                amount: Some(99),
                input_index: None,
            },
            OutputFields {
                kind: OutputKind::Contract,
                offset: 1100,
                to_offset: None,
                asset_id_offset: None,
                contract_id_offset: None,
                state_root_offset: None,
                amount: None,
                input_index: Some(1),
            },
        ],
        witnesses: vec![WitnessFields { len: 64, offset: 1200 }],
        script: Some(ScriptFields { script_len: 16, script_data_len: 4, script_offset: 100, script_data_offset: 120 }),
        create: None,
        contract_output_index: vec![(1, 1)],
        tx_size: 1300,
        tx_offset: 10_000,
    }
}

#[test]
fn transaction_fields_by_selector() {
    let tx = script_tx();
    assert_eq!(gtf_value(&tx, 0, 0x001), Ok(0));
    assert_eq!(gtf_value(&tx, 0, 0x002), Ok(1_000_000));
    assert_eq!(gtf_value(&tx, 0, 0x00E), Ok(1300));
    assert_eq!(gtf_value(&tx, 0, 0x005), Ok(2));
    assert_eq!(gtf_value(&tx, 0, 0x104), Ok(2));
    assert_eq!(gtf_value(&tx, 0, 0x007), Ok(1));
    assert_eq!(gtf_value(&tx, 1, 0x00B), Ok(10_800));
    assert_eq!(gtf_value(&tx, 2, 0x00B), Err(PanicReason::InputNotFound));
    assert_eq!(gtf_value(&tx, 2, 0x00C), Err(PanicReason::OutputNotFound));
    assert_eq!(gtf_value(&tx, 1, 0x00D), Err(PanicReason::WitnessNotFound));
}

#[test]
fn policies_must_be_set() {
    let tx = script_tx();
    assert_eq!(gtf_value(&tx, 0, 0x500), Ok(0b1001));
    assert_eq!(gtf_value(&tx, 0, 0x501), Ok(5));
    assert_eq!(gtf_value(&tx, 0, 0x502), Err(PanicReason::PolicyIsNotSet));
    assert_eq!(gtf_value(&tx, 0, 0x503), Err(PanicReason::PolicyIsNotSet));
    assert_eq!(gtf_value(&tx, 0, 0x504), Ok(77));
}

#[test]
fn input_fields_follow_the_input_kind() {
    let tx = script_tx();
    assert_eq!(gtf_value(&tx, 0, 0x200), Ok(0));
    assert_eq!(gtf_value(&tx, 1, 0x200), Ok(1));
    assert_eq!(gtf_value(&tx, 0, 0x204), Ok(1234));
    assert_eq!(gtf_value(&tx, 0, 0x203), Ok(10_000 + 500 + 34));
    assert_eq!(gtf_value(&tx, 0, 0x20B), Ok(10_000 + 500 + 200));
    assert_eq!(gtf_value(&tx, 0, 0x20D), Ok(1000));
    assert_eq!(gtf_value(&tx, 1, 0x204), Err(PanicReason::InputNotFound));
    assert_eq!(gtf_value(&tx, 0, 0x242), Err(PanicReason::InputNotFound));
    assert_eq!(gtf_value(&tx, 1, 0x225), Ok(10_000 + 800 + 96));
    assert_eq!(gtf_value(&tx, 0, 0x225), Err(PanicReason::InputNotFound));
    assert_eq!(gtf_value(&tx, 1, 0x221), Ok(1));
    assert_eq!(gtf_value(&tx, 0, 0x221), Err(PanicReason::InputNotFound));
    assert_eq!(gtf_value(&tx, 0x1_0000, 0x221), Err(PanicReason::InvalidMetadataIdentifier));
}

#[test]
fn output_and_witness_fields() {
    let tx = script_tx();
    assert_eq!(gtf_value(&tx, 0, 0x300), Ok(0));
    assert_eq!(gtf_value(&tx, 1, 0x300), Ok(1));
    assert_eq!(gtf_value(&tx, 0, 0x301), Ok(11_000));
    assert_eq!(gtf_value(&tx, 0, 0x302), Ok(99));
    assert_eq!(gtf_value(&tx, 1, 0x302), Err(PanicReason::OutputNotFound));
    assert_eq!(gtf_value(&tx, 1, 0x304), Ok(1));
    assert_eq!(gtf_value(&tx, 0, 0x304), Err(PanicReason::InputNotFound));
    assert_eq!(gtf_value(&tx, 0, 0x307), Err(PanicReason::OutputNotFound));
    assert_eq!(gtf_value(&tx, 0, 0x400), Ok(64));
    assert_eq!(gtf_value(&tx, 0, 0x401), Ok(10_000 + 1200 + 8));
}

#[test]
fn script_and_create_fields() {
    let tx = script_tx();
    assert_eq!(gtf_value(&tx, 0, 0x003), Ok(16));
    assert_eq!(gtf_value(&tx, 0, 0x004), Ok(4));
    assert_eq!(gtf_value(&tx, 0, 0x009), Ok(10_100));
    assert_eq!(gtf_value(&tx, 0, 0x00A), Ok(10_120));
    assert_eq!(gtf_value(&tx, 0, 0x101), Err(PanicReason::InvalidMetadataIdentifier));
    let create = TxFields {
        tx_type: 1,
        script_gas_limit: 0,
        script: None,
        create: Some(CreateFields { bytecode_witness_index: 0, salt_offset: 8, storage_slot_offsets: vec![300, 364] }),
        ..script_tx()
    };
    assert_eq!(gtf_value(&create, 0, 0x002), Ok(0));
    assert_eq!(gtf_value(&create, 0, 0x003), Err(PanicReason::InvalidMetadataIdentifier));
    assert_eq!(gtf_value(&create, 0, 0x101), Ok(0));
    assert_eq!(gtf_value(&create, 0, 0x102), Ok(2));
    assert_eq!(gtf_value(&create, 0, 0x106), Ok(10_008));
    assert_eq!(gtf_value(&create, 1, 0x107), Ok(10_364));
    assert_eq!(gtf_value(&create, 5, 0x107), Ok(10_000));
}

#[test]
fn unknown_selectors_are_refused() {
    let tx = script_tx();
    assert_eq!(gtf_value(&tx, 0, 0x000), Err(PanicReason::InvalidMetadataIdentifier));
    assert_eq!(gtf_value(&tx, 0, 0x900), Err(PanicReason::InvalidMetadataIdentifier));
    assert_eq!(gtf_value(&tx, 0, 0xFFF), Err(PanicReason::InvalidMetadataIdentifier));
}

#[test]
fn addresses_saturate() {
    let tx = TxFields { tx_offset: usize::MAX - 10, ..script_tx() };
    assert_eq!(gtf_value(&tx, 0, 0x00B), Ok(usize::MAX as u64));
    assert_eq!(gtf_value(&tx, 0, 0x401), Ok(usize::MAX as u64));
}

#[test]
fn field_instruction_sets_the_register_and_advances() {
    let tx = script_tx();
    let mut result = 7;
    let mut pc = 40;
    assert_eq!(get_transaction_field(&tx, &mut result, &mut pc, 0, 0x204), Ok(()));
    assert_eq!((result, pc), (1234, 44));
    assert_eq!(
        get_transaction_field(&tx, &mut result, &mut pc, 9, 0x204),
        Err(PanicOrBug::Panic(PanicReason::InputNotFound))
    );
    assert_eq!((result, pc), (1234, 44));
    let mut pc = u64::MAX - 1;
    assert_eq!(
        get_transaction_field(&tx, &mut result, &mut pc, 0, 0x001),
        Err(PanicOrBug::Panic(PanicReason::MemoryOverflow))
    );
    assert_eq!((result, pc), (0, u64::MAX - 1));
}
