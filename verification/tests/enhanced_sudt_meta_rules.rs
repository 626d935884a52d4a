use standard_udt_contracts::chain::{CellView, ScriptView, TxView};
use standard_udt_contracts::enhanced_sudt_meta::error::Error;
use standard_udt_contracts::enhanced_sudt_meta::main::{program_entry, run};
use standard_udt_contracts::enhanced_sudt_meta::meta_cell::{parse_meta, SudtMeta};
use standard_udt_contracts::enhanced_sudt_meta::update::validate_update;
use standard_udt_contracts::sys::SysErrorKind;

const META_HASH: [u8; 32] = [6u8; 32];
const UDT_CODE: [u8; 32] = [8u8; 32];

fn table(fields: &[Vec<u8>]) -> Vec<u8> {
    let header = 4 * (fields.len() + 1);
    let total: usize = header + fields.iter().map(|f| f.len()).sum::<usize>();
    let mut out = Vec::new();
    out.extend_from_slice(&(total as u32).to_le_bytes());
    let mut offset = header;
    for f in fields {
        out.extend_from_slice(&(offset as u32).to_le_bytes());
        offset += f.len();
    }
    for f in fields {
        out.extend_from_slice(f);
    }
    out
}

fn bytes(content: &[u8]) -> Vec<u8> {
    let mut out = (content.len() as u32).to_le_bytes().to_vec();
    out.extend_from_slice(content);
    out
}

fn meta_data(flags: u8, supply: u128, code_hash: Option<[u8; 32]>) -> Vec<u8> {
    let extra = match code_hash {
        Some(h) => bytes(&h),
        None => bytes(&[]),
    };
    table(&[
        vec![flags],
        supply.to_le_bytes().to_vec(),
        vec![8],
        vec![],
        vec![],
        vec![],
        extra,
        vec![],
        vec![],
    ])
}

fn plain_cell(data: Vec<u8>, type_script: Option<ScriptView>) -> CellView {
    CellView {
        lock_hash: [1u8; 32],
        lock: ScriptView { code_hash: [9u8; 32], hash_type: 1, args: vec![] },
        type_script,
        type_hash: None,
        data,
    }
}

fn bound_token(amount: u128) -> CellView {
    let script = ScriptView { code_hash: UDT_CODE, hash_type: 4, args: META_HASH.to_vec() };
    plain_cell(amount.to_le_bytes().to_vec(), Some(script))
}

fn tx(group_in: Vec<Vec<u8>>, group_out: Vec<Vec<u8>>, outputs: Vec<CellView>) -> TxView {
    TxView {
        script_args: [3u8; 32].to_vec(),
        script_hash: META_HASH,
        inputs: vec![],
        outputs,
        cell_deps: vec![],
        group_inputs: group_in.into_iter().map(|d| plain_cell(d, None)).collect(),
        group_outputs: group_out.into_iter().map(|d| plain_cell(d, None)).collect(),
    }
}

fn meta(flags: u8, supply: u128) -> SudtMeta {
    SudtMeta { config_flags: flags, current_supply: supply, udt_code_hash: None }
}

#[test]
fn sudt_meta_cell_parsing() {
    let m = parse_meta(&meta_data(1, 70, Some(UDT_CODE))).unwrap();
    assert_eq!(m.config_flags, 1);
    assert_eq!(m.current_supply, 70);
    assert_eq!(m.udt_code_hash, Some(UDT_CODE));
    let m = parse_meta(&meta_data(0, 0, None)).unwrap();
    assert_eq!(m.udt_code_hash, None);
    assert_eq!(parse_meta(&meta_data(0, 3, None)).err(), Some(Error::InvalidSupply));
    assert_eq!(parse_meta(&meta_data(0b100, 0, None)).err(), Some(Error::InvalidMetaData));
    let mut short_hash = meta_data(0, 0, None);
    short_hash.truncate(short_hash.len() - 1);
    assert_eq!(parse_meta(&short_hash).err(), Some(Error::InvalidMetaData));
}

#[test]
fn tracked_creation_counts_bound_outputs() {
    let outputs = || vec![bound_token(30), bound_token(40), plain_cell(vec![1, 2], None)];
    let t = tx(vec![], vec![meta_data(1, 70, Some(UDT_CODE))], outputs());
    assert_eq!(run(&t, Ok(())), Ok(()));
    assert_eq!(run(&t, Err(SysErrorKind::TypeIDError)), Err(Error::InvalidTypeId));
    let t = tx(vec![], vec![meta_data(1, 71, Some(UDT_CODE))], outputs());
    assert_eq!(run(&t, Ok(())), Err(Error::InvalidSupply));
    assert_eq!(program_entry(&t, Ok(())), 4);
    let t = tx(vec![], vec![meta_data(1, 70, None)], outputs());
    assert_eq!(run(&t, Ok(())), Err(Error::InvalidMetaData));
}

#[test]
fn untracked_creation_needs_zero_supply() {
    let t = tx(vec![], vec![meta_data(0, 0, None)], vec![bound_token(30)]);
    assert_eq!(run(&t, Ok(())), Ok(()));
}

#[test]
fn group_shape_rules() {
    let mut t = tx(vec![], vec![], vec![]);
    assert_eq!(run(&t, Ok(())), Err(Error::InvalidArgs));
    t.script_args = vec![0u8; 5];
    assert_eq!(run(&t, Ok(())), Err(Error::InvalidArgs));
    let t = tx(vec![meta_data(0, 0, None)], vec![], vec![]);
    assert_eq!(run(&t, Ok(())), Err(Error::InvalidArgs));
    let t = tx(vec![], vec![meta_data(0, 0, None), meta_data(0, 0, None)], vec![]);
    assert_eq!(run(&t, Ok(())), Err(Error::InvalidArgs));
}

#[test]
fn updates_keep_supply_and_mode() {
    assert_eq!(validate_update(&meta(1, 10), &meta(1, 10)), Ok(()));
    assert_eq!(validate_update(&meta(1, 10), &meta(0, 0)), Err(Error::ImmutableSupplyMode));
    assert_eq!(validate_update(&meta(0, 0), &meta(0, 5)), Err(Error::InvalidSupply));
    assert_eq!(validate_update(&meta(1, 10), &meta(1, 11)), Err(Error::AuthorityMissing));
    let t = tx(vec![meta_data(1, 10, Some(UDT_CODE))], vec![meta_data(1, 10, Some(UDT_CODE))], vec![]);
    assert_eq!(run(&t, Err(SysErrorKind::TypeIDError)), Ok(()));
    let t = tx(vec![meta_data(1, 10, Some(UDT_CODE))], vec![meta_data(0, 0, None)], vec![]);
    assert_eq!(program_entry(&t, Ok(())), 5);
}
