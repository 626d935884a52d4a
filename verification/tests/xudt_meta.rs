use standard_udt_contracts::chain::{CellView, CodeHashes, ScriptView, TxView};
use standard_udt_contracts::sys::ScriptError;
use standard_udt_contracts::types::{Authority, AuthorityCheck, Extension, XudtMeta};
use standard_udt_contracts::xudt_meta::config::{access_enabled, is_supply_tracked, paused, validate_config, whitelist_mode};
use standard_udt_contracts::xudt_meta::entry::{main, MetaGroup, UtilityResults};
use standard_udt_contracts::xudt_meta::error::Error;
use standard_udt_contracts::xudt_meta::parser::{byte32_field, parse_meta, read_u32, table_offsets};
use standard_udt_contracts::xudt_meta::shards::{
    collect_legal_access_list_shards, has_full_domain_access_list_shards, has_legal_access_list_shard,
    is_nibble_aligned_range, parse_access_list_shard, parse_byte32_vec, validate_shard_order, AccessListShard,
};
use standard_udt_contracts::xudt_meta::state::{
    has_bound_access_list_outputs, has_bound_xudt_cells, has_full_domain_access_list_outputs, validate_create,
};
use standard_udt_contracts::xudt_meta::token::{has_same_token_cells, sum_initial_udt_outputs};
use standard_udt_contracts::xudt_meta::update::{validate_destroy, validate_update, AuthorityChecks, DecodedRanges};

const META: [u8; 32] = [7u8; 32];
const UDT_CODE: [u8; 32] = [1u8; 32];
const LIST_CODE: [u8; 32] = [2u8; 32];

fn codes() -> CodeHashes {
    CodeHashes { udt: UDT_CODE, access_list: LIST_CODE }
}

fn lock() -> ScriptView {
    ScriptView { code_hash: [9u8; 32], hash_type: 1, args: vec![] }
}

fn bound(code: [u8; 32]) -> Option<ScriptView> {
    Some(ScriptView { code_hash: code, hash_type: 4, args: META.to_vec() })
}

fn cell(type_script: Option<ScriptView>, data: Vec<u8>) -> CellView {
    CellView { lock_hash: [3u8; 32], lock: lock(), type_script, type_hash: None, data }
}

fn tx(inputs: Vec<CellView>, outputs: Vec<CellView>) -> TxView {
    TxView {
        script_args: META.to_vec(),
        script_hash: META,
        inputs,
        outputs,
        cell_deps: vec![],
        group_inputs: vec![],
        group_outputs: vec![],
    }
}

fn table(fields: &[Vec<u8>]) -> Vec<u8> {
    let header = 4 + 4 * fields.len();
    let total: usize = header + fields.iter().map(|f| f.len()).sum::<usize>();
    let mut out = Vec::new();
    out.extend_from_slice(&(total as u32).to_le_bytes());
    let mut offset = header;
    for f in fields {
        out.extend_from_slice(&(offset as u32).to_le_bytes());
        offset += f.len();
    }
    for f in fields {
        out.extend_from_slice(f);
    }
    out
}

fn key(first: u8, last: u8) -> [u8; 32] {
    let mut k = [first; 32];
    k[31] = last;
    k
}

fn entries(list: &[[u8; 32]]) -> Vec<u8> {
    let mut out = (list.len() as u32).to_le_bytes().to_vec();
    for e in list {
        out.extend_from_slice(e);
    }
    out
}

fn shard(start: [u8; 32], end: [u8; 32], list: &[[u8; 32]]) -> Vec<u8> {
    let mut range = start.to_vec();
    range.extend_from_slice(&end);
    table(&[range, entries(list)])
}

fn meta(flags: u8, supply: u128) -> XudtMeta {
    XudtMeta {
        config_flags: flags,
        current_supply: supply,
        decimals: 8,
        name: b"Token".to_vec(),
        symbol: b"TK".to_vec(),
        uri: vec![],
        extra_data: vec![],
        mint_authority: Some(Authority { authority_type: 0, script_hash: [5u8; 32], script: None }),
        metadata_authority: None,
        access_authority: None,
        extensions: vec![],
    }
}

fn amount(v: u128) -> Vec<u8> {
    v.to_le_bytes().to_vec()
}

fn copy_authority(a: &Option<Authority>) -> Option<Authority> {
    a.as_ref().map(|a| Authority { authority_type: a.authority_type, script_hash: a.script_hash, script: a.script.clone() })
}

fn checks(input: &XudtMeta, mint: Result<bool, ScriptError>, metadata: Result<bool, ScriptError>, access: Result<bool, ScriptError>) -> AuthorityChecks {
    AuthorityChecks {
        mint: AuthorityCheck { authority: copy_authority(&input.mint_authority), passed: mint },
        metadata: AuthorityCheck { authority: copy_authority(&input.metadata_authority), passed: metadata },
        access: AuthorityCheck { authority: copy_authority(&input.access_authority), passed: access },
    }
}

fn all_pass(input: &XudtMeta) -> AuthorityChecks {
    checks(input, Ok(true), Ok(true), Ok(true))
}

fn mint_check(input: &XudtMeta, passed: Result<bool, ScriptError>) -> AuthorityCheck {
    AuthorityCheck { authority: copy_authority(&input.mint_authority), passed }
}

fn utils(input: &XudtMeta, initial: u128, after: u128) -> UtilityResults {
    UtilityResults { initial_supply: Ok(initial), supply_after_delta: Ok(after), checks: all_pass(input) }
}

fn no_ranges(t: &TxView) -> DecodedRanges {
    DecodedRanges { inputs: vec![None; t.inputs.len()], outputs: vec![None; t.outputs.len()] }
}

#[test]
fn config_flags_combinations() {
    assert_eq!(validate_config(0b0000_1111), Ok(()));
    assert_eq!(validate_config(0b0000_0011), Ok(()));
    assert_eq!(validate_config(0b0000_0100), Err(Error::InvalidMetaData));
    assert_eq!(validate_config(0b0001_0000), Err(Error::InvalidMetaData));
    assert!(is_supply_tracked(1) && !is_supply_tracked(2));
    assert!(access_enabled(2) && !access_enabled(1));
    assert!(whitelist_mode(4) && !whitelist_mode(2));
    assert!(paused(8) && !paused(4));
}

#[test]
fn table_header_reading() {
    let data = table(&[vec![1], vec![2, 3]]);
    assert_eq!(table_offsets(&data, 2, false), Ok(vec![12, 13, 15]));
    assert_eq!(table_offsets(&data, 3, false), Err(Error::InvalidMetaData));
    assert_eq!(table_offsets(&data, 1, true), Ok(vec![12, 13, 15]));
    assert_eq!(table_offsets(&data, 1, false), Err(Error::InvalidMetaData));
    let mut bad = data.clone();
    bad[0] = 99;
    assert_eq!(table_offsets(&bad, 2, false), Err(Error::InvalidMetaData));
    assert_eq!(read_u32(&data, 0), Ok(15));
    assert_eq!(read_u32(&data, 12), Err(Error::InvalidMetaData));
    let raw: Vec<u8> = (0u8..40).collect();
    let mut expected = [0u8; 32];
    expected.copy_from_slice(&raw[4..36]);
    assert_eq!(byte32_field(&raw, 4, 36), Ok(expected));
    assert_eq!(byte32_field(&raw, 4, 35), Err(Error::InvalidMetaData));
    assert_eq!(byte32_field(&raw, 10, 42), Err(Error::InvalidMetaData));
}

#[test]
fn parse_meta_keeps_raw_fields() {
    let fields: Vec<Vec<u8>> = (0u8..11).map(|i| vec![i; i as usize]).collect();
    let data = table(&fields);
    let decoded = meta(0b0000_0011, 5);
    let parsed = parse_meta(&data, &decoded).unwrap();
    assert_eq!(parsed.config_flags, 3);
    assert_eq!(parsed.current_supply, 5);
    let mut metadata = Vec::new();
    for i in 2u8..7 {
        metadata.extend(vec![i; i as usize]);
    }
    assert_eq!(parsed.metadata_fields, metadata);
    assert_eq!(parsed.mint_authority_raw, vec![7u8; 7]);
    assert_eq!(parsed.extensions_raw, vec![10u8; 10]);
    assert!(parsed.mint_authority.is_some());
    assert!(parse_meta(&data, &meta(0b0000_0100, 0)).is_err());
    assert!(parse_meta(&table(&fields[..10]), &decoded).is_err());
}

#[test]
fn shard_parsing_rules() {
    let start = key(0, 0x00);
    let end = key(0, 0x0f);
    assert!(parse_access_list_shard(&shard(start, end, &[])).is_ok());
    assert!(parse_access_list_shard(&shard(key(0, 0x01), end, &[])).is_err());
    assert!(parse_access_list_shard(&shard(start, key(0, 0x0e), &[])).is_err());
    assert!(parse_access_list_shard(&shard(key(1, 0), key(0, 0x0f), &[])).is_err());
    let a = key(0, 3);
    let b = key(0, 5);
    assert!(parse_access_list_shard(&shard(start, end, &[a, b])).is_ok());
    assert!(parse_access_list_shard(&shard(start, end, &[b, a])).is_err());
    assert!(parse_access_list_shard(&shard(start, end, &[a, a])).is_err());
    assert_eq!(parse_byte32_vec(&entries(&[a, b])), Ok(vec![a, b]));
    assert_eq!(parse_byte32_vec(&[1, 0, 0]), Err(Error::InvalidMetaData));
    let mut too_long = entries(&[a]);
    too_long.push(0);
    assert_eq!(parse_byte32_vec(&too_long), Err(Error::InvalidMetaData));
    assert!(is_nibble_aligned_range(&start, &end));
    assert!(!is_nibble_aligned_range(&key(0, 0x01), &end));
    assert!(!is_nibble_aligned_range(&start, &key(0, 0x0e)));
    let next = AccessListShard { start: key(0, 0x10), end: key(0, 0x1f) };
    assert_eq!(validate_shard_order(&[], &next), Ok(()));
    assert_eq!(validate_shard_order(&[(start, end)], &next), Ok(()));
    assert_eq!(validate_shard_order(&[(start, key(0, 0x10))], &next), Err(Error::InvalidMetaData));
    let t = tx(vec![], vec![cell(bound(LIST_CODE), shard(start, end, &[])), cell(bound(LIST_CODE), shard(key(0, 0x10), key(0, 0x1f), &[]))]);
    assert_eq!(collect_legal_access_list_shards(&t, &META, &codes()), Ok(vec![(start, end), (key(0, 0x10), key(0, 0x1f))]));
}

#[test]
fn full_domain_from_two_contiguous_shards() {
    let mut low_end = [0xffu8; 32];
    low_end[0] = 0x7f;
    let mut high_start = [0u8; 32];
    high_start[0] = 0x80;
    let t = tx(
        vec![],
        vec![
            cell(bound(LIST_CODE), shard([0u8; 32], low_end, &[])),
            cell(None, vec![]),
            cell(bound(LIST_CODE), shard(high_start, [0xffu8; 32], &[])),
        ],
    );
    assert_eq!(has_full_domain_access_list_shards(&t, &META, &codes()), Ok(true));
    assert_eq!(has_legal_access_list_shard(&t, &META, &codes()), Ok(true));
    let gap = tx(vec![], vec![cell(bound(LIST_CODE), shard([0u8; 32], low_end, &[]))]);
    assert_eq!(has_full_domain_access_list_shards(&gap, &META, &codes()), Ok(false));
    let out_of_order = tx(
        vec![],
        vec![
            cell(bound(LIST_CODE), shard(high_start, [0xffu8; 32], &[])),
            cell(bound(LIST_CODE), shard([0u8; 32], low_end, &[])),
        ],
    );
    assert_eq!(has_full_domain_access_list_shards(&out_of_order, &META, &codes()), Err(Error::InvalidMetaData));
    let none = tx(vec![], vec![cell(None, vec![])]);
    assert_eq!(has_legal_access_list_shard(&none, &META, &codes()), Ok(false));
}

#[test]
fn initial_supply_sums_bound_outputs() {
    let t = tx(
        vec![],
        vec![
            cell(bound(UDT_CODE), amount(100)),
            cell(bound(LIST_CODE), amount(5)),
            cell(bound(UDT_CODE), amount(23)),
        ],
    );
    assert_eq!(sum_initial_udt_outputs(&t, &META, &UDT_CODE), Ok(123));
    let short = tx(vec![], vec![cell(bound(UDT_CODE), vec![1, 2, 3])]);
    assert_eq!(sum_initial_udt_outputs(&short, &META, &UDT_CODE), Err(Error::InvalidSupply));
    let overflow = tx(vec![], vec![cell(bound(UDT_CODE), amount(u128::MAX)), cell(bound(UDT_CODE), amount(1))]);
    assert_eq!(sum_initial_udt_outputs(&overflow, &META, &UDT_CODE), Err(Error::InvalidSupply));
    assert_eq!(has_same_token_cells(&t, &META, &codes()), Ok(true));
    assert_eq!(has_same_token_cells(&tx(vec![], vec![]), &META, &codes()), Ok(false));
}

#[test]
fn full_domain_ranges_in_any_order() {
    let mut low_end = [0xffu8; 32];
    low_end[0] = 0x7f;
    let mut high_start = [0u8; 32];
    high_start[0] = 0x80;
    let t = tx(vec![], vec![cell(bound(LIST_CODE), vec![]), cell(bound(LIST_CODE), vec![])]);
    let forward = vec![Some(([0u8; 32], low_end)), Some((high_start, [0xffu8; 32]))];
    let backward = vec![Some((high_start, [0xffu8; 32])), Some(([0u8; 32], low_end))];
    assert_eq!(has_full_domain_access_list_outputs(&t, &META, &codes(), &forward), Ok(true));
    assert_eq!(has_full_domain_access_list_outputs(&t, &META, &codes(), &backward), Ok(true));
    let broken = vec![Some(([0u8; 32], low_end)), None];
    assert_eq!(has_full_domain_access_list_outputs(&t, &META, &codes(), &broken), Err(Error::AccessListRequired));
    assert_eq!(has_bound_access_list_outputs(&t, &META, &codes()), Ok(true));
}

#[test]
fn state_create_checks_supply_and_access() {
    let t = tx(vec![], vec![cell(bound(UDT_CODE), amount(50))]);
    let ranges = vec![None];
    assert_eq!(validate_create(&t, &meta(1, 50), &META, &codes(), Ok(50), &ranges), Ok(()));
    assert_eq!(validate_create(&t, &meta(1, 49), &META, &codes(), Ok(50), &ranges), Err(Error::InvalidSupply));
    assert_eq!(validate_create(&t, &meta(1, 50), &META, &codes(), Err(ScriptError::AmountEncoding), &ranges), Err(Error::InvalidSupply));
    assert_eq!(validate_create(&t, &meta(1, 50), &META, &codes(), Err(ScriptError::SyscallUnknown), &ranges), Err(Error::SyscallUnknown));
    assert_eq!(validate_create(&t, &meta(0, 1), &META, &codes(), Ok(0), &ranges), Err(Error::InvalidSupply));
    assert_eq!(validate_create(&t, &meta(2, 0), &META, &codes(), Ok(0), &ranges), Err(Error::AccessListRequired));
    let full = tx(vec![], vec![cell(bound(LIST_CODE), vec![])]);
    let covering = vec![Some(([0u8; 32], [0xffu8; 32]))];
    assert_eq!(validate_create(&full, &meta(2, 0), &META, &codes(), Ok(0), &covering), Ok(()));
}

#[test]
fn update_supply_mode_is_immutable() {
    let t = tx(vec![], vec![]);
    let r = validate_update(&t, &meta(0, 0), &meta(1, 0), &META, &codes(), Ok(0), all_pass(&meta(0, 0)), &no_ranges(&t));
    assert_eq!(r, Err(Error::ImmutableSupplyMode));
}

#[test]
fn update_unchanged_needs_authority() {
    let t = tx(vec![], vec![]);
    let denied = |m: &XudtMeta| checks(m, Ok(false), Ok(false), Ok(false));
    let r = validate_update(&t, &meta(1, 10), &meta(1, 10), &META, &codes(), Ok(10), denied(&meta(1, 10)), &no_ranges(&t));
    assert_eq!(r, Err(Error::AuthorityFailed));
    let r = validate_update(&t, &meta(1, 10), &meta(1, 10), &META, &codes(), Ok(10), all_pass(&meta(1, 10)), &no_ranges(&t));
    assert_eq!(r, Ok(()));
    let mut guarded = meta(1, 10);
    guarded.metadata_authority = Some(Authority { authority_type: 0, script_hash: [6u8; 32], script: None });
    let metadata_only = |m: &XudtMeta| checks(m, Ok(false), Ok(true), Ok(false));
    let r = validate_update(&t, &guarded, &guarded, &META, &codes(), Ok(10), metadata_only(&guarded), &no_ranges(&t));
    assert_eq!(r, Ok(()));
    let mut ownerless = meta(1, 10);
    ownerless.mint_authority = None;
    let r = validate_update(&t, &ownerless, &ownerless, &META, &codes(), Ok(10), all_pass(&ownerless), &no_ranges(&t));
    assert_eq!(r, Err(Error::AuthorityMissing));
}

#[test]
fn update_supply_follows_delta_with_mint_authority() {
    let t = tx(vec![], vec![]);
    let ok = validate_update(&t, &meta(1, 10), &meta(1, 15), &META, &codes(), Ok(15), all_pass(&meta(1, 10)), &no_ranges(&t));
    assert_eq!(ok, Ok(()));
    let wrong = validate_update(&t, &meta(1, 10), &meta(1, 16), &META, &codes(), Ok(15), all_pass(&meta(1, 10)), &no_ranges(&t));
    assert_eq!(wrong, Err(Error::InvalidSupply));
    let failed_delta = validate_update(&t, &meta(1, 10), &meta(1, 15), &META, &codes(), Err(ScriptError::SupplyOverflow), all_pass(&meta(1, 10)), &no_ranges(&t));
    assert_eq!(failed_delta, Err(Error::InvalidSupply));
    let denied = |m: &XudtMeta| checks(m, Ok(false), Ok(true), Ok(true));
    let no_mint = validate_update(&t, &meta(1, 10), &meta(1, 15), &META, &codes(), Ok(15), denied(&meta(1, 10)), &no_ranges(&t));
    assert_eq!(no_mint, Err(Error::AuthorityFailed));
    let mut without_authority = meta(1, 10);
    without_authority.mint_authority = None;
    let mut target = meta(1, 15);
    target.mint_authority = None;
    let fixed = validate_update(&t, &without_authority, &target, &META, &codes(), Ok(15), all_pass(&without_authority), &no_ranges(&t));
    assert_eq!(fixed, Err(Error::AuthorityMissing));
    let untracked = validate_update(&t, &meta(0, 0), &meta(0, 3), &META, &codes(), Ok(3), all_pass(&meta(0, 0)), &no_ranges(&t));
    assert_eq!(untracked, Err(Error::InvalidSupply));
}

#[test]
fn update_metadata_falls_back_to_mint_authority() {
    let t = tx(vec![], vec![]);
    let mut renamed = meta(0, 0);
    renamed.name = b"Other".to_vec();
    let mut with_metadata_authority = meta(0, 0);
    with_metadata_authority.metadata_authority = Some(Authority { authority_type: 0, script_hash: [6u8; 32], script: None });
    let mut renamed_with = meta(0, 0);
    renamed_with.metadata_authority = Some(Authority { authority_type: 0, script_hash: [6u8; 32], script: None });
    renamed_with.name = b"Other".to_vec();
    let metadata_fails = |m: &XudtMeta| checks(m, Ok(true), Ok(false), Ok(true));
    assert_eq!(validate_update(&t, &with_metadata_authority, &renamed_with, &META, &codes(), Ok(0), metadata_fails(&with_metadata_authority), &no_ranges(&t)), Ok(()));
    let both_fail = |m: &XudtMeta| checks(m, Ok(false), Ok(false), Ok(true));
    assert_eq!(validate_update(&t, &with_metadata_authority, &renamed_with, &META, &codes(), Ok(0), both_fail(&with_metadata_authority), &no_ranges(&t)), Err(Error::AuthorityFailed));
    let invalid = |m: &XudtMeta| checks(m, Ok(true), Err(ScriptError::InvalidAuthority), Ok(true));
    assert_eq!(validate_update(&t, &with_metadata_authority, &renamed_with, &META, &codes(), Ok(0), invalid(&with_metadata_authority), &no_ranges(&t)), Err(Error::InvalidMetaData));
    assert_eq!(validate_update(&t, &meta(0, 0), &renamed, &META, &codes(), Ok(0), all_pass(&meta(0, 0)), &no_ranges(&t)), Ok(()));
}

#[test]
fn update_extension_change_needs_mint_authority() {
    let t = tx(vec![], vec![]);
    let mut extended = meta(0, 0);
    extended.extensions = vec![Extension { extension_type: 3, script: vec![1, 2] }];
    let denied = |m: &XudtMeta| checks(m, Ok(false), Ok(true), Ok(true));
    assert_eq!(validate_update(&t, &meta(0, 0), &extended, &META, &codes(), Ok(0), denied(&meta(0, 0)), &no_ranges(&t)), Err(Error::AuthorityFailed));
    assert_eq!(validate_update(&t, &meta(0, 0), &extended, &META, &codes(), Ok(0), all_pass(&meta(0, 0)), &no_ranges(&t)), Ok(()));
}

#[test]
fn access_mode_change_rules() {
    let empty = tx(vec![], vec![]);
    assert_eq!(
        validate_update(&empty, &meta(0, 0), &meta(2, 0), &META, &codes(), Ok(0), all_pass(&meta(0, 0)), &no_ranges(&empty)),
        Err(Error::AccessListRequired)
    );
    let with_tokens = tx(vec![cell(bound(UDT_CODE), amount(1))], vec![]);
    assert_eq!(
        validate_update(&with_tokens, &meta(0, 0), &meta(2, 0), &META, &codes(), Ok(0), all_pass(&meta(0, 0)), &no_ranges(&with_tokens)),
        Err(Error::AccessModeTokenCells)
    );
    assert_eq!(has_bound_xudt_cells(&with_tokens, &META, &codes()), Ok(true));
    let full = tx(vec![], vec![cell(bound(LIST_CODE), vec![])]);
    let ranges = DecodedRanges { inputs: vec![], outputs: vec![Some(([0u8; 32], [0xffu8; 32]))] };
    assert_eq!(validate_update(&full, &meta(0, 0), &meta(6, 0), &META, &codes(), Ok(0), all_pass(&meta(0, 0)), &ranges), Ok(()));
    let access_denied = |m: &XudtMeta| checks(m, Ok(false), Ok(true), Ok(true));
    let mut guarded = meta(0, 0);
    guarded.access_authority = Some(Authority { authority_type: 0, script_hash: [8u8; 32], script: None });
    let mut guarded_on = meta(6, 0);
    guarded_on.access_authority = Some(Authority { authority_type: 0, script_hash: [8u8; 32], script: None });
    assert_eq!(validate_update(&full, &guarded, &guarded_on, &META, &codes(), Ok(0), access_denied(&guarded), &ranges), Ok(()));
    let pause = validate_update(&empty, &meta(0, 0), &meta(8, 0), &META, &codes(), Ok(0), checks(&meta(0, 0), Ok(false), Ok(true), Ok(true)), &no_ranges(&empty));
    assert_eq!(pause, Err(Error::AuthorityFailed));
}

#[test]
fn script_dispatches_on_group() {
    let t = tx(vec![], vec![cell(bound(UDT_CODE), amount(9))]);
    let create = MetaGroup { input: None, output: Some(meta(1, 9)), meta_type_hash: META };
    assert_eq!(main(&t, &create, Ok(()), &codes(), utils(&meta(1, 9), 9, 9), &no_ranges(&t)), Ok(()));
    let create_bad_id = MetaGroup { input: None, output: Some(meta(1, 9)), meta_type_hash: META };
    assert_eq!(main(&t, &create_bad_id, Err(Error::InvalidTypeId), &codes(), utils(&meta(1, 9), 9, 9), &no_ranges(&t)), Err(Error::InvalidTypeId));
    let destroy = MetaGroup { input: Some(meta(1, 9)), output: None, meta_type_hash: META };
    assert_eq!(main(&t, &destroy, Ok(()), &codes(), utils(&meta(1, 9), 9, 9), &no_ranges(&t)), Err(Error::InvalidSupply));
    let nothing = MetaGroup { input: None, output: None, meta_type_hash: META };
    assert_eq!(main(&t, &nothing, Ok(()), &codes(), utils(&meta(1, 9), 9, 9), &no_ranges(&t)), Err(Error::InvalidArgs));
    let update = MetaGroup { input: Some(meta(1, 9)), output: Some(meta(1, 9)), meta_type_hash: META };
    assert_eq!(main(&t, &update, Ok(()), &codes(), utils(&meta(1, 9), 9, 9), &no_ranges(&t)), Ok(()));
}

#[test]
fn xudt_meta_destroy_rules() {
    let empty = tx(vec![], vec![]);
    assert_eq!(validate_destroy(&empty, &meta(1, 0), &META, &codes(), &mint_check(&meta(1, 0), Ok(true)), &no_ranges(&empty)), Ok(()));
    assert_eq!(validate_destroy(&empty, &meta(0, 0), &META, &codes(), &mint_check(&meta(0, 0), Ok(true)), &no_ranges(&empty)), Err(Error::InvalidSupply));
    assert_eq!(validate_destroy(&empty, &meta(1, 4), &META, &codes(), &mint_check(&meta(1, 4), Ok(true)), &no_ranges(&empty)), Err(Error::InvalidSupply));
    assert_eq!(validate_destroy(&empty, &meta(1, 0), &META, &codes(), &mint_check(&meta(1, 0), Ok(false)), &no_ranges(&empty)), Err(Error::AuthorityFailed));
    let tokens_out = tx(vec![], vec![cell(bound(UDT_CODE), amount(1))]);
    assert_eq!(validate_destroy(&tokens_out, &meta(1, 0), &META, &codes(), &mint_check(&meta(1, 0), Ok(true)), &no_ranges(&tokens_out)), Err(Error::InvalidSupply));
    assert_eq!(validate_destroy(&empty, &meta(3, 0), &META, &codes(), &mint_check(&meta(3, 0), Ok(true)), &no_ranges(&empty)), Err(Error::AccessListRequired));
    let full_in = tx(vec![cell(bound(LIST_CODE), vec![])], vec![]);
    let ranges = DecodedRanges { inputs: vec![Some(([0u8; 32], [0xffu8; 32]))], outputs: vec![] };
    assert_eq!(validate_destroy(&full_in, &meta(3, 0), &META, &codes(), &mint_check(&meta(3, 0), Ok(true)), &ranges), Ok(()));
    let list_left = tx(vec![cell(bound(LIST_CODE), vec![])], vec![cell(bound(LIST_CODE), vec![])]);
    let ranges = DecodedRanges { inputs: vec![Some(([0u8; 32], [0xffu8; 32]))], outputs: vec![None] };
    assert_eq!(validate_destroy(&list_left, &meta(3, 0), &META, &codes(), &mint_check(&meta(3, 0), Ok(true)), &ranges), Err(Error::AccessListRequired));
    let group = MetaGroup { input: Some(meta(1, 0)), output: None, meta_type_hash: META };
    assert_eq!(main(&empty, &group, Ok(()), &codes(), utils(&meta(1, 0), 0, 0), &no_ranges(&empty)), Ok(()));
}
