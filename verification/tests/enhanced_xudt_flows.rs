use standard_udt_contracts::chain::{CellView, ScriptView, TxView};
use standard_udt_contracts::enhanced_xudt::extensions::run_extensions;
use standard_udt_contracts::enhanced_xudt::run::{
    program_entry, run, token_meta_eq, EnhancedContext, MintRequirement, Operation, ScriptAttr, TokenMeta,
};
use standard_udt_contracts::xudt::error::Error;

const META: [u8; 32] = [7u8; 32];

fn typed() -> CellView {
    CellView {
        lock_hash: [3u8; 32],
        lock: ScriptView { code_hash: [9u8; 32], hash_type: 1, args: vec![] },
        type_script: None,
        type_hash: Some(META),
        data: vec![],
    }
}

fn meta(flags: u8, supply: u128) -> TokenMeta {
    TokenMeta {
        config_flags: flags,
        current_supply: supply,
        mint_authority: Some(ScriptAttr { location: 0, script_hash: [5u8; 32], script: None }),
        extensions: vec![],
    }
}

fn tx(inputs: usize, outputs: usize, deps: usize) -> TxView {
    TxView {
        script_args: META.to_vec(),
        script_hash: [0u8; 32],
        inputs: (0..inputs).map(|_| typed()).collect(),
        outputs: (0..outputs).map(|_| typed()).collect(),
        cell_deps: (0..deps).map(|_| typed()).collect(),
        group_inputs: vec![],
        group_outputs: vec![],
    }
}

fn ctx(input_amount: u128, output_amount: u128) -> EnhancedContext {
    EnhancedContext {
        input_amount: Ok(input_amount),
        output_amount: Ok(output_amount),
        input_metas: vec![],
        output_metas: vec![],
        dep_metas: vec![],
        access_check: Ok(()),
        mint_check: MintRequirement {
            authority: Some(ScriptAttr { location: 0, script_hash: [5u8; 32], script: None }),
            result: Ok(()),
        },
        extension_runs: vec![],
    }
}

#[test]
fn operation_codes() {
    assert_eq!(Operation::Transfer.code(), 0);
    assert_eq!(Operation::Mint.code(), 1);
    assert_eq!(Operation::ProtocolBurn.code(), 2);
}

#[test]
fn transfer_under_visible_meta() {
    let t = tx(0, 0, 1);
    let mut c = ctx(5, 5);
    c.dep_metas = vec![Some(meta(0, 0))];
    assert_eq!(run(&t, &c), Ok(()));
    c.dep_metas = vec![Some(meta(0b1000, 0))];
    assert_eq!(run(&t, &c), Err(Error::MetaStateMismatch));
    c.dep_metas = vec![Some(meta(0, 0))];
    c.access_check = Err(Error::AccessDenied);
    assert_eq!(run(&t, &c), Err(Error::AccessDenied));
    assert_eq!(program_entry(&t, &c), Error::AccessDenied.code());
    let none = tx(0, 0, 0);
    assert_eq!(run(&none, &ctx(5, 5)), Err(Error::MetaMissing));
}

#[test]
fn mint_moves_tracked_supply() {
    let t = tx(1, 1, 0);
    let mut c = ctx(0, 40);
    c.input_metas = vec![Some(meta(1, 100))];
    c.output_metas = vec![Some(meta(1, 140))];
    assert_eq!(run(&t, &c), Ok(()));
    c.output_metas = vec![Some(meta(1, 141))];
    assert_eq!(run(&t, &c), Err(Error::MetaStateMismatch));
    c.input_metas = vec![Some(meta(1, u128::MAX - 1))];
    assert_eq!(run(&t, &c), Err(Error::SupplyOverflow));
    c.input_metas = vec![Some(meta(1, 100))];
    c.output_metas = vec![Some(meta(3, 140))];
    assert_eq!(run(&t, &c), Err(Error::MetaStateMismatch));
    c.output_metas = vec![Some(meta(1, 140))];
    c.mint_check.result = Err(Error::AuthorityFailed);
    assert_eq!(run(&t, &c), Err(Error::AuthorityFailed));
    let only_dep = tx(0, 0, 1);
    let mut d = ctx(0, 40);
    d.dep_metas = vec![Some(meta(1, 100))];
    assert_eq!(run(&only_dep, &d), Err(Error::MetaInputMissing));
}

#[test]
fn burn_moves_tracked_supply_down() {
    let t = tx(1, 1, 0);
    let mut c = ctx(50, 20);
    c.input_metas = vec![Some(meta(1, 100))];
    c.output_metas = vec![Some(meta(1, 70))];
    assert_eq!(run(&t, &c), Ok(()));
    c.input_metas = vec![Some(meta(1, 10))];
    assert_eq!(run(&t, &c), Err(Error::SupplyUnderflow));
    let untracked_zero = tx(1, 1, 0);
    let mut u = ctx(50, 20);
    u.input_metas = vec![Some(meta(0, 0))];
    u.output_metas = vec![Some(meta(0, 0))];
    assert_eq!(run(&untracked_zero, &u), Ok(()));
    u.output_metas = vec![Some(meta(0, 5))];
    assert_eq!(run(&untracked_zero, &u), Err(Error::MetaStateMismatch));
    let destruction = tx(0, 0, 0);
    assert_eq!(run(&destruction, &ctx(50, 0)), Ok(()));
    let both = tx(1, 1, 1);
    let mut b = ctx(50, 20);
    b.input_metas = vec![Some(meta(1, 100))];
    b.output_metas = vec![Some(meta(1, 70))];
    b.dep_metas = vec![Some(meta(1, 100))];
    assert_eq!(run(&both, &b), Err(Error::MetaNotUnique));
}

#[test]
fn executed_extensions() {
    let exts = vec![
        ScriptAttr { location: 3, script_hash: [1u8; 32], script: Some(vec![1]) },
        ScriptAttr { location: 4, script_hash: [2u8; 32], script: Some(vec![2]) },
    ];
    assert_eq!(run_extensions(Operation::Mint, &exts, true, &vec![Ok(()), Ok(())]), Ok(()));
    assert_eq!(run_extensions(Operation::Mint, &exts, true, &vec![Ok(()), Err(Error::ExtensionFailed)]), Err(Error::ExtensionFailed));
    let missing = vec![ScriptAttr { location: 3, script_hash: [1u8; 32], script: None }];
    assert_eq!(run_extensions(Operation::Transfer, &missing, false, &vec![Ok(())]), Err(Error::InvalidMetaData));
    let presence = vec![ScriptAttr { location: 0, script_hash: [1u8; 32], script: Some(vec![1]) }];
    assert_eq!(run_extensions(Operation::Transfer, &presence, false, &vec![Ok(())]), Err(Error::InvalidMetaData));
    assert!(token_meta_eq(&meta(1, 2), &meta(1, 2)));
    assert!(!token_meta_eq(&meta(1, 2), &meta(1, 3)));
}
