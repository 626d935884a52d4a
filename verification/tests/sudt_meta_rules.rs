use standard_udt_contracts::chain::{CellView, ScriptView, TxView};
use standard_udt_contracts::sudt_meta::error::Error;
use standard_udt_contracts::sudt_meta::meta_cell::{
    decode_amount, is_allowed_always_success_lock_code_hash, parse_meta, sum_initial_udt_outputs, validate_create_type_id,
    validate_type_args, ParsedSudtMeta,
};
use standard_udt_contracts::sudt_meta::run::{program_entry, run, MetaContext};
use standard_udt_contracts::sudt_meta::update::{supply_mode_changed, validate_destroy, validate_update, AuthorityResults};
use standard_udt_contracts::sys::{ScriptError, SysErrorKind};
use standard_udt_contracts::types::{Authority, AuthorityRequirement, SudtMeta};

const META: [u8; 32] = [7u8; 32];
const UDT: [u8; 32] = [1u8; 32];
const ALWAYS_SUCCESS: [u8; 32] = [
    0x3b, 0x52, 0x1c, 0xc4, 0xb5, 0x52, 0xf1, 0x09, 0xd0, 0x92, 0xd8, 0xcc, 0x46, 0x8a, 0x80, 0x48,
    0xac, 0xb5, 0x3c, 0x59, 0x52, 0xdb, 0xe7, 0x69, 0xd2, 0xb2, 0xf9, 0xcf, 0x6e, 0x47, 0xf7, 0xf1,
];

fn table(fields: &[Vec<u8>]) -> Vec<u8> {
    let header = 4 + 4 * fields.len();
    let total: usize = header + fields.iter().map(|f| f.len()).sum::<usize>();
    let mut out = (total as u32).to_le_bytes().to_vec();
    let mut offset = header;
    for f in fields {
        out.extend_from_slice(&(offset as u32).to_le_bytes());
        offset += f.len();
    }
    for f in fields {
        out.extend_from_slice(f);
    }
    out
}

fn meta_data() -> Vec<u8> {
    let fields: Vec<Vec<u8>> = (0u8..9).map(|i| vec![i; i as usize]).collect();
    table(&fields)
}

fn decoded(flags: u8, supply: u128) -> SudtMeta {
    SudtMeta {
        config_flags: flags,
        current_supply: supply,
        decimals: 6,
        name: vec![],
        symbol: vec![],
        uri: vec![],
        extra_data: vec![],
        mint_authority: Some(Authority { authority_type: 0, script_hash: [5u8; 32], script: None }),
        metadata_authority: None,
    }
}

fn parsed(flags: u8, supply: u128) -> ParsedSudtMeta {
    parse_meta(&meta_data(), &Some(decoded(flags, supply))).unwrap()
}

fn cell(lock_code: [u8; 32], type_script: Option<ScriptView>, data: Vec<u8>) -> CellView {
    CellView {
        lock_hash: [3u8; 32],
        lock: ScriptView { code_hash: lock_code, hash_type: 4, args: vec![] },
        type_script,
        type_hash: None,
        data,
    }
}

fn udt() -> Option<ScriptView> {
    Some(ScriptView { code_hash: UDT, hash_type: 4, args: META.to_vec() })
}

fn tx() -> TxView {
    TxView {
        script_args: META.to_vec(),
        script_hash: META,
        inputs: vec![],
        outputs: vec![],
        cell_deps: vec![],
        group_inputs: vec![],
        group_outputs: vec![],
    }
}

fn mint_authority() -> Option<Authority> {
    Some(Authority { authority_type: 0, script_hash: [5u8; 32], script: None })
}

fn mint_requirement(result: Result<(), ScriptError>) -> AuthorityRequirement {
    AuthorityRequirement { authority: mint_authority(), fallback: None, result }
}

fn results(metadata_or_mint: Result<(), ScriptError>, mint: Result<(), ScriptError>) -> AuthorityResults {
    AuthorityResults {
        metadata_or_mint: AuthorityRequirement { authority: None, fallback: mint_authority(), result: metadata_or_mint },
        mint: mint_requirement(mint),
    }
}

fn passing() -> AuthorityResults {
    results(Ok(()), Ok(()))
}

#[test]
fn parse_and_amounts() {
    let p = parsed(1, 4);
    assert_eq!(p.metadata_fields, [vec![2u8; 2], vec![3; 3], vec![4; 4], vec![5; 5], vec![6; 6]].concat());
    assert_eq!(p.mint_authority_raw, vec![7u8; 7]);
    assert_eq!(p.metadata_authority_raw, vec![8u8; 8]);
    assert!(parse_meta(&meta_data(), &None).is_err());
    assert!(parse_meta(&meta_data()[..20], &Some(decoded(1, 4))).is_err());
    assert_eq!(decode_amount(&[1u8; 15]), Err(Error::InvalidSupply));
    assert_eq!(decode_amount(&7u128.to_le_bytes()), Ok(7));
    assert!(is_allowed_always_success_lock_code_hash(&ALWAYS_SUCCESS));
    assert!(!is_allowed_always_success_lock_code_hash(&[0u8; 32]));
    assert!(supply_mode_changed(0, 1) && !supply_mode_changed(3, 1));
    assert_eq!(validate_create_type_id(Err(SysErrorKind::TypeIDError)), Err(Error::InvalidTypeId));
    let mut t = tx();
    assert_eq!(validate_type_args(&t), Ok(()));
    t.script_args = vec![];
    assert_eq!(validate_type_args(&t), Err(Error::InvalidArgs));
}

#[test]
fn initial_supply() {
    let mut t = tx();
    t.outputs = vec![cell([0u8; 32], udt(), 30u128.to_le_bytes().to_vec()), cell([0u8; 32], None, vec![]), cell([0u8; 32], udt(), 12u128.to_le_bytes().to_vec())];
    assert_eq!(sum_initial_udt_outputs(&t, &META, &UDT), Ok(42));
}

#[test]
fn update_rules() {
    assert_eq!(validate_update(&parsed(0, 0), &parsed(1, 0), Ok(0), &passing()), Err(Error::ImmutableSupplyMode));
    assert_eq!(validate_update(&parsed(0, 0), &parsed(0, 1), Ok(1), &passing()), Err(Error::InvalidSupply));
    assert_eq!(validate_update(&parsed(1, 5), &parsed(1, 8), Ok(8), &passing()), Ok(()));
    assert_eq!(validate_update(&parsed(1, 5), &parsed(1, 9), Ok(8), &passing()), Err(Error::InvalidSupply));
    assert_eq!(validate_update(&parsed(1, 5), &parsed(1, 8), Err(ScriptError::SupplyUnderflow), &passing()), Err(Error::InvalidSupply));
    let no_mint = results(Ok(()), Err(ScriptError::AuthorityMissing));
    assert_eq!(validate_update(&parsed(1, 5), &parsed(1, 8), Ok(8), &no_mint), Err(Error::AuthorityMissing));
    assert_eq!(validate_update(&parsed(1, 5), &parsed(1, 5), Ok(5), &no_mint), Ok(()));
    let no_metadata = results(Err(ScriptError::AuthorityFailed), Ok(()));
    assert_eq!(validate_update(&parsed(1, 5), &parsed(1, 5), Ok(5), &no_metadata), Err(Error::AuthorityFailed));
}

#[test]
fn destroy_rules() {
    let t = tx();
    assert_eq!(validate_destroy(&t, &parsed(1, 0), &META, &UDT, &mint_requirement(Ok(()))), Ok(()));
    assert_eq!(validate_destroy(&t, &parsed(0, 0), &META, &UDT, &mint_requirement(Ok(()))), Err(Error::InvalidSupply));
    assert_eq!(validate_destroy(&t, &parsed(1, 2), &META, &UDT, &mint_requirement(Ok(()))), Err(Error::InvalidSupply));
    assert_eq!(validate_destroy(&t, &parsed(1, 0), &META, &UDT, &mint_requirement(Err(ScriptError::InvalidAuthority))), Err(Error::InvalidMetaData));
    let mut with_output = tx();
    with_output.outputs = vec![cell([0u8; 32], udt(), vec![])];
    assert_eq!(validate_destroy(&with_output, &parsed(1, 0), &META, &UDT, &mint_requirement(Ok(()))), Err(Error::InvalidSupply));
}

fn context(inputs: usize, outputs: Vec<Option<SudtMeta>>, input_metas: Vec<Option<SudtMeta>>) -> MetaContext {
    let _ = inputs;
    MetaContext {
        input_metas,
        output_metas: outputs,
        type_id_check: Ok(()),
        udt_code_hash: UDT,
        supply_after_delta: Ok(0),
        authority: passing(),
    }
}

#[test]
fn script_runs() {
    let mut create = tx();
    create.group_outputs = vec![cell(ALWAYS_SUCCESS, None, meta_data())];
    create.outputs = vec![cell([0u8; 32], udt(), 9u128.to_le_bytes().to_vec())];
    let c = context(0, vec![Some(decoded(1, 9))], vec![]);
    assert_eq!(run(&create, &c), Ok(()));
    assert_eq!(program_entry(&create, &c), 0);
    let wrong = context(0, vec![Some(decoded(1, 8))], vec![]);
    assert_eq!(run(&create, &wrong), Err(Error::InvalidSupply));
    assert_eq!(program_entry(&create, &wrong), Error::InvalidSupply.code());
    let mut bad_lock = tx();
    bad_lock.group_outputs = vec![cell([0u8; 32], None, meta_data())];
    assert_eq!(run(&bad_lock, &context(0, vec![Some(decoded(1, 0))], vec![])), Err(Error::InvalidArgs));
    let mut twice = tx();
    twice.group_inputs = vec![cell([0u8; 32], None, meta_data()), cell([0u8; 32], None, meta_data())];
    assert_eq!(run(&twice, &context(2, vec![], vec![Some(decoded(1, 0)), Some(decoded(1, 0))])), Err(Error::InvalidArgs));
    let mut destroy = tx();
    destroy.group_inputs = vec![cell([0u8; 32], None, meta_data())];
    assert_eq!(run(&destroy, &context(1, vec![], vec![Some(decoded(1, 0))])), Ok(()));
    assert_eq!(run(&destroy, &context(1, vec![], vec![Some(decoded(1, 5))])), Err(Error::InvalidSupply));
    let mut unauthorized = context(1, vec![], vec![Some(decoded(1, 0))]);
    unauthorized.authority.mint.result = Err(ScriptError::AuthorityFailed);
    assert_eq!(run(&destroy, &unauthorized), Err(Error::AuthorityFailed));
    assert_eq!(run(&tx(), &context(0, vec![], vec![])), Err(Error::InvalidArgs));
}
