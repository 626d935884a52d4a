use standard_udt_contracts::chain::{CellView, ScriptView, Source, TxView};
use standard_udt_contracts::enhanced_sudt::error::Error;
use standard_udt_contracts::enhanced_sudt::main::{program_entry, run};
use standard_udt_contracts::enhanced_sudt::meta::{
    check_authority, collect_group_amount, decode_amount, parse_meta, ScriptAttr,
};

const META: [u8; 32] = [7u8; 32];
const OWNER_LOCK: [u8; 32] = [5u8; 32];

fn table(fields: &[Vec<u8>]) -> Vec<u8> {
    let header = 4 * (fields.len() + 1);
    let total: usize = header + fields.iter().map(|f| f.len()).sum::<usize>();
    let mut out = Vec::new();
    out.extend_from_slice(&(total as u32).to_le_bytes());
    let mut offset = header;
    for f in fields {
        out.extend_from_slice(&(offset as u32).to_le_bytes());
        offset += f.len();
    }
    for f in fields {
        out.extend_from_slice(f);
    }
    out
}

fn authority(location: u8, hash: [u8; 32], script: Vec<u8>) -> Vec<u8> {
    table(&[vec![location], hash.to_vec(), script])
}

fn meta_data(flags: u8, supply: u128, mint: Vec<u8>) -> Vec<u8> {
    table(&[
        vec![flags],
        supply.to_le_bytes().to_vec(),
        vec![8],
        vec![],
        vec![],
        vec![],
        vec![],
        mint,
        vec![],
    ])
}

fn cell(lock_hash: [u8; 32], type_hash: Option<[u8; 32]>, data: Vec<u8>) -> CellView {
    CellView {
        lock_hash,
        lock: ScriptView { code_hash: [9u8; 32], hash_type: 1, args: vec![] },
        type_script: None,
        type_hash,
        data,
    }
}

fn token(amount: u128) -> CellView {
    cell([1u8; 32], Some([2u8; 32]), amount.to_le_bytes().to_vec())
}

fn meta_cell(lock_hash: [u8; 32], flags: u8, supply: u128) -> CellView {
    cell(lock_hash, Some(META), meta_data(flags, supply, authority(0, OWNER_LOCK, vec![])))
}

fn tx(group_in: Vec<u128>, group_out: Vec<u128>) -> TxView {
    TxView {
        script_args: META.to_vec(),
        script_hash: [0u8; 32],
        inputs: vec![],
        outputs: vec![],
        cell_deps: vec![],
        group_inputs: group_in.into_iter().map(token).collect(),
        group_outputs: group_out.into_iter().map(token).collect(),
    }
}

#[test]
fn amounts_are_sixteen_little_endian_bytes() {
    assert_eq!(decode_amount(&300u128.to_le_bytes()), Ok(300));
    assert_eq!(decode_amount(&[0u8; 15]), Err(Error::AmountEncoding));
    let t = tx(vec![u128::MAX, 1], vec![]);
    assert_eq!(collect_group_amount(&t, Source::GroupInput), Err(Error::AmountOverflow));
    let t = tx(vec![10, 20], vec![]);
    assert_eq!(collect_group_amount(&t, Source::GroupInput), Ok(30));
}

#[test]
fn sudt_metadata_parsing() {
    let m = parse_meta(&meta_data(1, 100, authority(0, OWNER_LOCK, vec![]))).unwrap();
    assert_eq!(m.config_flags, 1);
    assert_eq!(m.current_supply, 100);
    assert_eq!(m.mint_authority.unwrap().script_hash, OWNER_LOCK);
    let m = parse_meta(&meta_data(0, 0, vec![])).unwrap();
    assert!(m.mint_authority.is_none());
    assert_eq!(parse_meta(&meta_data(0b10, 0, vec![])).err(), Some(Error::InvalidMetaData));
    assert_eq!(parse_meta(&meta_data(0, 5, vec![])).err(), Some(Error::InvalidMetaData));
    assert_eq!(
        parse_meta(&meta_data(0, 0, authority(3, OWNER_LOCK, vec![]))).err(),
        Some(Error::InvalidMetaData)
    );
    assert_eq!(parse_meta(&[1, 2, 3]).err(), Some(Error::InvalidMetaData));
}

#[test]
fn authority_locations() {
    let t = tx(vec![], vec![]);
    let a = ScriptAttr { location: 3, script_hash: OWNER_LOCK };
    assert_eq!(check_authority(&t, &a), Err(Error::UnsupportedAuthorityLocation));
    let a = ScriptAttr { location: 9, script_hash: OWNER_LOCK };
    assert_eq!(check_authority(&t, &a), Err(Error::InvalidMetaData));
    let mut t = tx(vec![], vec![]);
    t.inputs = vec![cell(OWNER_LOCK, None, vec![])];
    let a = ScriptAttr { location: 0, script_hash: OWNER_LOCK };
    assert_eq!(check_authority(&t, &a), Ok(true));
}

#[test]
fn transfer_and_bad_args() {
    assert_eq!(run(&tx(vec![5, 5], vec![10])), Ok(()));
    let mut t = tx(vec![5], vec![5]);
    t.script_args = vec![1, 2, 3];
    assert_eq!(run(&t), Err(Error::InvalidArgs));
    assert_eq!(program_entry(&t), 2);
}

#[test]
fn initial_mint_needs_created_meta() {
    let t = tx(vec![], vec![100]);
    assert_eq!(run(&t), Err(Error::MetaMissing));
    let mut t = tx(vec![], vec![100]);
    t.outputs = vec![meta_cell([4u8; 32], 1, 100)];
    assert_eq!(run(&t), Ok(()));
}

#[test]
fn tracked_mint_moves_supply() {
    let mut t = tx(vec![], vec![40]);
    t.inputs = vec![meta_cell(OWNER_LOCK, 1, 100)];
    t.outputs = vec![meta_cell(OWNER_LOCK, 1, 140)];
    assert_eq!(run(&t), Ok(()));
    t.outputs = vec![meta_cell(OWNER_LOCK, 1, 141)];
    assert_eq!(run(&t), Err(Error::MetaStateMismatch));
    t.outputs = vec![];
    assert_eq!(run(&t), Err(Error::MetaOutputMissing));
    assert_eq!(program_entry(&t), 11);
}

#[test]
fn mint_without_authority_fails() {
    let mut t = tx(vec![], vec![40]);
    t.cell_deps = vec![meta_cell([4u8; 32], 0, 0)];
    assert_eq!(run(&t), Err(Error::AuthorityFailed));
    t.inputs = vec![cell(OWNER_LOCK, None, vec![])];
    assert_eq!(run(&t), Ok(()));
}

#[test]
fn destruction_without_meta_input_is_accepted() {
    let t = tx(vec![50], vec![20]);
    assert_eq!(run(&t), Ok(()));
}

#[test]
fn tracked_burn_moves_supply_down() {
    let mut t = tx(vec![50], vec![20]);
    t.inputs = vec![meta_cell(OWNER_LOCK, 1, 100)];
    t.outputs = vec![meta_cell(OWNER_LOCK, 1, 70)];
    assert_eq!(run(&t), Ok(()));
    t.inputs = vec![meta_cell(OWNER_LOCK, 1, 10)];
    t.outputs = vec![meta_cell(OWNER_LOCK, 1, 0)];
    assert_eq!(run(&t), Err(Error::SupplyUnderflow));
}

#[test]
fn visible_meta_must_be_unique() {
    let mut t = tx(vec![], vec![40]);
    t.cell_deps = vec![meta_cell(OWNER_LOCK, 0, 0)];
    t.inputs = vec![meta_cell(OWNER_LOCK, 0, 0)];
    assert_eq!(run(&t), Err(Error::MetaNotUnique));
}
