use standard_udt_contracts::chain::{CellView, ScriptView, Source, TxView};
use standard_udt_contracts::sudt::entry::main;
use standard_udt_contracts::sudt::error::Error;
use standard_udt_contracts::sudt::meta::{
    collect_group_amount, find_current_meta, is_supply_tracked, load_meta_type_hash_arg, validate_burn_or_destruction,
    validate_mint, SudtContext,
};
use standard_udt_contracts::sys::ScriptError;
use standard_udt_contracts::types::{Authority, AuthorityCheck, SudtMeta};

const META: [u8; 32] = [7u8; 32];

fn lock() -> ScriptView {
    ScriptView { code_hash: [9u8; 32], hash_type: 1, args: vec![] }
}

fn typed(type_hash: [u8; 32]) -> CellView {
    CellView { lock_hash: [3u8; 32], lock: lock(), type_script: None, type_hash: Some(type_hash), data: vec![] }
}

fn meta(flags: u8, supply: u128, with_mint: bool) -> SudtMeta {
    SudtMeta {
        config_flags: flags,
        current_supply: supply,
        decimals: 6,
        name: vec![],
        symbol: vec![],
        uri: vec![],
        extra_data: vec![],
        mint_authority: if with_mint { Some(Authority { authority_type: 0, script_hash: [5u8; 32], script: None }) } else { None },
        metadata_authority: None,
    }
}

fn tx() -> TxView {
    TxView {
        script_args: META.to_vec(),
        script_hash: [0u8; 32],
        inputs: vec![],
        outputs: vec![],
        cell_deps: vec![],
        group_inputs: vec![],
        group_outputs: vec![],
    }
}

fn ctx(t: &TxView, input_amount: u128, output_amount: u128) -> SudtContext {
    SudtContext {
        input_amount: Ok(input_amount),
        output_amount: Ok(output_amount),
        input_metas: t.inputs.iter().map(|_| None).collect(),
        output_metas: t.outputs.iter().map(|_| None).collect(),
        dep_metas: t.cell_deps.iter().map(|_| None).collect(),
        mint_check: AuthorityCheck { authority: Some(Authority { authority_type: 0, script_hash: [5u8; 32], script: None }), passed: Ok(true) },
    }
}

#[test]
fn amounts_and_arguments() {
    assert_eq!(collect_group_amount(Ok(12)), Ok(12));
    assert_eq!(collect_group_amount(Err(ScriptError::AmountEncoding)), Err(Error::AmountEncoding));
    assert_eq!(collect_group_amount(Err(ScriptError::AmountOverflow)), Err(Error::AmountOverflow));
    assert_eq!(collect_group_amount(Err(ScriptError::SupplyOverflow)), Err(Error::SyscallUnknown));
    let mut t = tx();
    assert_eq!(load_meta_type_hash_arg(&t), Ok(META));
    t.script_args = vec![0; 31];
    assert_eq!(load_meta_type_hash_arg(&t), Err(Error::InvalidArgs));
    assert!(is_supply_tracked(1) && !is_supply_tracked(2));
}

#[test]
fn transfers_and_burns_pass() {
    let t = tx();
    assert_eq!(main(&t, &ctx(&t, 10, 10)), Ok(()));
    assert_eq!(main(&t, &ctx(&t, 10, 3)), Ok(()));
    let mut c = ctx(&t, 10, 3);
    c.input_amount = Err(ScriptError::AmountOverflow);
    assert_eq!(main(&t, &c), Err(Error::AmountOverflow));
}

#[test]
fn mint_rules() {
    let t = tx();
    assert_eq!(main(&t, &ctx(&t, 0, 5)), Err(Error::MetaMissing));
    let mut created = tx();
    created.outputs = vec![typed(META)];
    let mut c = ctx(&created, 0, 5);
    c.output_metas = vec![Some(meta(1, 5, true))];
    assert_eq!(main(&created, &c), Ok(()));

    let mut via_dep = tx();
    via_dep.cell_deps = vec![typed(META)];
    let mut c = ctx(&via_dep, 0, 5);
    c.dep_metas = vec![Some(meta(1, 0, true))];
    assert_eq!(validate_mint(&via_dep, &META, &c), Err(Error::MetaInputMissing));
    c.dep_metas = vec![Some(meta(0, 0, true))];
    assert_eq!(validate_mint(&via_dep, &META, &c), Ok(()));
    c.dep_metas = vec![Some(meta(0, 0, false))];
    assert_eq!(validate_mint(&via_dep, &META, &c), Err(Error::AuthorityMissing));
    c.dep_metas = vec![Some(meta(0, 7, true))];
    assert_eq!(validate_mint(&via_dep, &META, &c), Err(Error::MetaStateMismatch));
    c.dep_metas = vec![Some(meta(0, 0, true))];
    c.mint_check.passed = Err(ScriptError::UnsupportedAuthorityLocation);
    assert_eq!(validate_mint(&via_dep, &META, &c), Err(Error::UnsupportedAuthorityLocation));

    let mut via_input = tx();
    via_input.inputs = vec![typed(META)];
    let mut c = ctx(&via_input, 0, 5);
    c.input_metas = vec![Some(meta(1, 0, true))];
    assert_eq!(validate_mint(&via_input, &META, &c), Ok(()));
    let current = find_current_meta(&via_input, &META, &c).unwrap().unwrap();
    assert!(current.source == Source::Input);
}

#[test]
fn burn_or_destruction_rules() {
    let t = tx();
    assert_eq!(validate_burn_or_destruction(&t, &META, &ctx(&t, 5, 0)), Ok(()));
    let mut with_input = tx();
    with_input.inputs = vec![typed(META)];
    let mut c = ctx(&with_input, 5, 0);
    c.input_metas = vec![Some(meta(0, 3, true))];
    assert_eq!(validate_burn_or_destruction(&with_input, &META, &c), Err(Error::MetaStateMismatch));
    c.input_metas = vec![Some(meta(1, 3, true))];
    assert_eq!(validate_burn_or_destruction(&with_input, &META, &c), Ok(()));
    c.input_metas = vec![None];
    assert_eq!(validate_burn_or_destruction(&with_input, &META, &c), Err(Error::InvalidMetaData));
}
