use standard_udt_contracts::chain::{CellView, CodeHashes, ScriptView, TxView};
use standard_udt_contracts::enhanced_xudt_meta::error::Error;
use standard_udt_contracts::enhanced_xudt_meta::meta_cell::{
    parse_access_list_shard, parse_meta, validate_config, validate_meta_lock, ScriptAttr, XudtMeta,
};
use standard_udt_contracts::enhanced_xudt_meta::update::{validate_access_mode_transition, validate_update};

const META_HASH: [u8; 32] = [6u8; 32];
const UDT_CODE: [u8; 32] = [8u8; 32];
const LIST_CODE: [u8; 32] = [10u8; 32];
const MINTER: [u8; 32] = [5u8; 32];
const META_LOCK: [u8; 32] = [
    0x3b, 0x52, 0x1c, 0xc4, 0xb5, 0x52, 0xf1, 0x09, 0xd0, 0x92, 0xd8, 0xcc, 0x46, 0x8a, 0x80, 0x48,
    0xac, 0xb5, 0x3c, 0x59, 0x52, 0xdb, 0xe7, 0x69, 0xd2, 0xb2, 0xf9, 0xcf, 0x6e, 0x47, 0xf7, 0xf1,
];

fn codes() -> CodeHashes {
    CodeHashes { udt: UDT_CODE, access_list: LIST_CODE }
}

fn table(fields: &[Vec<u8>]) -> Vec<u8> {
    let header = 4 * (fields.len() + 1);
    let total: usize = header + fields.iter().map(|f| f.len()).sum::<usize>();
    let mut out = Vec::new();
    out.extend_from_slice(&(total as u32).to_le_bytes());
    let mut offset = header;
    for f in fields {
        out.extend_from_slice(&(offset as u32).to_le_bytes());
        offset += f.len();
    }
    for f in fields {
        out.extend_from_slice(f);
    }
    out
}

fn meta_data(flags: u8, supply: u128, mint: Vec<u8>) -> Vec<u8> {
    table(&[
        vec![flags],
        supply.to_le_bytes().to_vec(),
        vec![8],
        vec![],
        vec![],
        vec![],
        vec![],
        mint,
        vec![],
        vec![],
        4u32.to_le_bytes().to_vec(),
    ])
}

fn shard_data(start: [u8; 32], end: [u8; 32], entries: &[[u8; 32]]) -> Vec<u8> {
    let mut range = start.to_vec();
    range.extend_from_slice(&end);
    let mut list = (entries.len() as u32).to_le_bytes().to_vec();
    for e in entries {
        list.extend_from_slice(e);
    }
    table(&[range, list])
}

fn cell(lock_hash: [u8; 32], type_script: Option<ScriptView>, data: Vec<u8>) -> CellView {
    CellView {
        lock_hash,
        lock: ScriptView { code_hash: META_LOCK, hash_type: 1, args: vec![] },
        type_script,
        type_hash: None,
        data,
    }
}

fn bound(code: [u8; 32]) -> Option<ScriptView> {
    Some(ScriptView { code_hash: code, hash_type: 4, args: META_HASH.to_vec() })
}

fn tx(inputs: Vec<CellView>, outputs: Vec<CellView>) -> TxView {
    TxView {
        script_args: [3u8; 32].to_vec(),
        script_hash: META_HASH,
        inputs,
        outputs,
        cell_deps: vec![],
        group_inputs: vec![],
        group_outputs: vec![],
    }
}

fn meta(flags: u8, supply: u128, minter: bool) -> XudtMeta {
    let mint_raw = if minter { table(&[vec![0], MINTER.to_vec(), vec![]]) } else { vec![] };
    XudtMeta {
        config_flags: flags,
        current_supply: supply,
        metadata_fields: vec![],
        mint_authority_raw: mint_raw,
        metadata_authority_raw: vec![],
        access_authority_raw: vec![],
        extensions_raw: 4u32.to_le_bytes().to_vec(),
        mint_authority: if minter { Some(ScriptAttr { location: 0, script_hash: MINTER }) } else { None },
        metadata_authority: None,
        access_authority: None,
    }
}

#[test]
fn config_flags_rules() {
    assert_eq!(validate_config(0b0000), Ok(()));
    assert_eq!(validate_config(0b0111), Ok(()));
    assert_eq!(validate_config(0b0100), Err(Error::InvalidMetaData));
    assert_eq!(validate_config(0b1_0000), Err(Error::InvalidMetaData));
}

#[test]
fn xudt_meta_cell_parsing() {
    let mint = table(&[vec![0], MINTER.to_vec(), vec![]]);
    let m = parse_meta(&meta_data(0b0011, 50, mint.clone())).unwrap();
    assert_eq!(m.config_flags, 0b0011);
    assert_eq!(m.current_supply, 50);
    assert_eq!(m.mint_authority.unwrap().script_hash, MINTER);
    assert_eq!(m.mint_authority_raw, mint);
    assert!(m.access_authority.is_none());
    assert_eq!(parse_meta(&meta_data(0b0100, 0, vec![])).err(), Some(Error::InvalidMetaData));
    assert_eq!(parse_meta(&meta_data(0, 9, vec![])).err(), Some(Error::InvalidSupply));
    assert_eq!(parse_meta(&meta_data(0, 0, vec![1, 2])).err(), Some(Error::InvalidMetaData));
}

#[test]
fn shard_parsing() {
    let s = parse_access_list_shard(&shard_data([0u8; 32], [0xffu8; 32], &[[1u8; 32], [2u8; 32]])).unwrap();
    assert_eq!(s.start, [0u8; 32]);
    assert_eq!(s.end, [0xffu8; 32]);
    assert_eq!(s.entries, 2);
    let mut broken = shard_data([0u8; 32], [0xffu8; 32], &[[1u8; 32]]);
    broken.truncate(broken.len() - 1);
    assert_eq!(parse_access_list_shard(&broken).err(), Some(Error::InvalidMetaData));
}

#[test]
fn meta_lock_whitelist() {
    assert_eq!(validate_meta_lock(&cell([0u8; 32], None, vec![])), Ok(()));
    let mut other = cell([0u8; 32], None, vec![]);
    other.lock.code_hash = [1u8; 32];
    assert_eq!(validate_meta_lock(&other), Err(Error::InvalidArgs));
}

#[test]
fn unchanged_update_is_accepted() {
    let t = tx(vec![], vec![]);
    assert_eq!(validate_update(&t, &meta(1, 10, true), &meta(1, 10, true), &META_HASH, &codes()), Ok(()));
}

#[test]
fn supply_rules_on_update() {
    let t = tx(vec![], vec![]);
    assert_eq!(
        validate_update(&t, &meta(1, 10, true), &meta(0, 0, true), &META_HASH, &codes()),
        Err(Error::ImmutableSupplyMode)
    );
    assert_eq!(
        validate_update(&t, &meta(0, 0, false), &meta(0, 3, false), &META_HASH, &codes()),
        Err(Error::InvalidSupply)
    );
    assert_eq!(
        validate_update(&t, &meta(1, 10, false), &meta(1, 12, false), &META_HASH, &codes()),
        Err(Error::AuthorityMissing)
    );
    assert_eq!(
        validate_update(&t, &meta(1, 10, true), &meta(1, 12, true), &META_HASH, &codes()),
        Err(Error::AuthorityFailed)
    );
    let signed = tx(vec![cell(MINTER, None, vec![])], vec![]);
    assert_eq!(
        validate_update(&signed, &meta(1, 10, true), &meta(1, 12, true), &META_HASH, &codes()),
        Ok(())
    );
    assert_eq!(
        validate_update(&t, &meta(1, 10, false), &meta(1, 10, true), &META_HASH, &codes()),
        Err(Error::AuthorityMissing)
    );
}

#[test]
fn access_mode_transitions() {
    let empty = tx(vec![], vec![]);
    assert_eq!(validate_access_mode_transition(&empty, 0, 0b0010, &META_HASH, &codes()), Err(Error::AccessListRequired));
    let full = tx(vec![], vec![cell([0u8; 32], bound(LIST_CODE), shard_data([0u8; 32], [0xffu8; 32], &[]))]);
    assert_eq!(validate_access_mode_transition(&full, 0, 0b0010, &META_HASH, &codes()), Ok(()));
    let partial = tx(vec![], vec![cell([0u8; 32], bound(LIST_CODE), shard_data([0u8; 32], [0x7fu8; 32], &[]))]);
    assert_eq!(validate_access_mode_transition(&partial, 0, 0b0010, &META_HASH, &codes()), Err(Error::AccessListRequired));
    assert_eq!(validate_access_mode_transition(&partial, 0, 0b0110, &META_HASH, &codes()), Ok(()));
    let broken = tx(vec![], vec![cell([0u8; 32], bound(LIST_CODE), vec![1, 2, 3])]);
    assert_eq!(validate_access_mode_transition(&broken, 0, 0b0110, &META_HASH, &codes()), Err(Error::InvalidMetaData));
    let tokens = tx(vec![cell([0u8; 32], bound(UDT_CODE), 5u128.to_le_bytes().to_vec())], vec![]);
    assert_eq!(validate_access_mode_transition(&tokens, 0, 0b0010, &META_HASH, &codes()), Err(Error::AccessModeTokenCells));
    assert_eq!(validate_access_mode_transition(&tokens, 0b0110, 0, &META_HASH, &codes()), Err(Error::AccessModeTokenCells));
    assert_eq!(validate_access_mode_transition(&empty, 0b0110, 0, &META_HASH, &codes()), Ok(()));
    assert_eq!(validate_access_mode_transition(&tokens, 0b0010, 0b1010, &META_HASH, &codes()), Ok(()));
}
