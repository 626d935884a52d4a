use ckb_std::ckb_types::packed::{Byte, Script};
use ckb_std::ckb_types::prelude::{Builder, Entity, Pack, Unpack};
use standard_udt_contracts::chain::{CellView, ScriptView, Source, TxView};
use standard_udt_contracts::sys::ScriptError;
use standard_udt_contracts::types::{Authority, AuthorityCheck, Extension, XudtMeta};
use standard_udt_contracts::xudt::access::{
    binary_contains, build_shard_index, load_access_list_range, shard_covers_index, sort_dedup_locks,
    validate_if_enabled, AccessVerifier, CheckedLocks, ShardIndex,
};
use standard_udt_contracts::xudt::entry::main;
use standard_udt_contracts::xudt::error::Error;
use standard_udt_contracts::xudt::extensions::{mint_authority_context_code, run_extensions, script_hash_type, ScriptHashKind};
use standard_udt_contracts::xudt::meta::{
    collect_group_amount, decode_amount, find_current_meta, find_meta_in_source, find_unique_visible_meta,
    load_meta_type_hash_arg, parse_meta, require_authority,
};
use standard_udt_contracts::xudt::validation::{validate_negative_delta, Operation, TokenContext};

const META: [u8; 32] = [7u8; 32];
const LIST_HASH: [u8; 32] = [4u8; 32];

fn lock() -> ScriptView {
    ScriptView { code_hash: [9u8; 32], hash_type: 1, args: vec![] }
}

fn holder(lock_hash: [u8; 32], data: Vec<u8>) -> CellView {
    CellView { lock_hash, lock: lock(), type_script: None, type_hash: None, data }
}

fn typed(type_hash: [u8; 32], data: Vec<u8>) -> CellView {
    CellView { lock_hash: [3u8; 32], lock: lock(), type_script: None, type_hash: Some(type_hash), data }
}

fn amount(v: u128) -> Vec<u8> {
    v.to_le_bytes().to_vec()
}

fn meta(flags: u8, supply: u128) -> XudtMeta {
    XudtMeta {
        config_flags: flags,
        current_supply: supply,
        decimals: 8,
        name: vec![],
        symbol: vec![],
        uri: vec![],
        extra_data: vec![],
        mint_authority: Some(Authority { authority_type: 0, script_hash: [5u8; 32], script: None }),
        metadata_authority: None,
        access_authority: None,
        extensions: vec![],
    }
}

fn range_data(start: [u8; 32], end: [u8; 32]) -> Vec<u8> {
    let mut out = Vec::new();
    out.extend_from_slice(&80u32.to_le_bytes());
    out.extend_from_slice(&12u32.to_le_bytes());
    out.extend_from_slice(&76u32.to_le_bytes());
    out.extend_from_slice(&start);
    out.extend_from_slice(&end);
    out.extend_from_slice(&0u32.to_le_bytes());
    out
}

fn key(first: u8) -> [u8; 32] {
    [first; 32]
}

fn empty_tx() -> TxView {
    TxView {
        script_args: META.to_vec(),
        script_hash: [0u8; 32],
        inputs: vec![],
        outputs: vec![],
        cell_deps: vec![],
        group_inputs: vec![],
        group_outputs: vec![],
    }
}

fn context(t: &TxView) -> TokenContext {
    TokenContext {
        input_metas: t.inputs.iter().map(|_| None).collect(),
        output_metas: t.outputs.iter().map(|_| None).collect(),
        dep_metas: t.cell_deps.iter().map(|_| None).collect(),
        dep_shards: t.cell_deps.iter().map(|_| None).collect(),
        access_list_type_hash: LIST_HASH,
        mint_check: AuthorityCheck { authority: Some(Authority { authority_type: 0, script_hash: [5u8; 32], script: None }), passed: Ok(true) },
        extension_runs: vec![],
    }
}

#[test]
fn meta_arg_and_amounts() {
    let mut t = empty_tx();
    assert_eq!(load_meta_type_hash_arg(&t), Ok(META));
    t.script_args = vec![1, 2];
    assert_eq!(load_meta_type_hash_arg(&t), Err(Error::InvalidArgs));
    t.group_inputs = vec![holder(key(1), amount(10)), holder(key(2), amount(32))];
    assert_eq!(collect_group_amount(&t, Source::GroupInput), Ok(42));
    t.group_outputs = vec![holder(key(1), vec![1, 2])];
    assert_eq!(collect_group_amount(&t, Source::GroupOutput), Err(Error::AmountEncoding));
    t.group_outputs = vec![holder(key(1), amount(u128::MAX)), holder(key(1), amount(1))];
    assert_eq!(collect_group_amount(&t, Source::GroupOutput), Err(Error::AmountOverflow));
    let mut long = amount(5);
    long.push(0xaa);
    assert_eq!(decode_amount(&long), Ok(5));
}

#[test]
fn metadata_lookup() {
    let mut t = empty_tx();
    t.cell_deps = vec![typed(META, vec![])];
    t.inputs = vec![typed(META, vec![]), typed(META, vec![])];
    let deps = vec![Some(meta(1, 3))];
    let two = vec![Some(meta(1, 3)), Some(meta(1, 3))];
    assert!(matches!(find_meta_in_source(&t, &META, Source::Input, &two), Err(Error::MetaNotUnique)));
    let undecodable = vec![None];
    assert!(matches!(find_meta_in_source(&t, &META, Source::CellDep, &undecodable), Err(Error::InvalidMetaData)));
    let found = find_meta_in_source(&t, &META, Source::CellDep, &deps).unwrap().unwrap();
    assert_eq!(found.current_supply, 3);
    t.inputs = vec![typed(META, vec![])];
    let one = vec![Some(meta(0, 0))];
    assert!(matches!(find_unique_visible_meta(&t, &META, &deps, &one), Err(Error::MetaNotUnique)));
    let current = find_current_meta(&t, &META, &deps, &one).unwrap().unwrap();
    assert!(current.source == Source::CellDep);
    let parsed = parse_meta(&meta(9, 1));
    assert!(parsed.is_supply_tracked() && parsed.is_paused() && !parsed.is_access_enabled() && !parsed.is_whitelist());
}

#[test]
fn authority_requirement() {
    let present = Some(Authority { authority_type: 0, script_hash: [5u8; 32], script: None });
    assert_eq!(require_authority(&present, Ok(true)), Ok(()));
    assert_eq!(require_authority(&present, Ok(false)), Err(Error::AuthorityFailed));
    assert_eq!(require_authority(&present, Err(ScriptError::UnsupportedAuthorityLocation)), Err(Error::UnsupportedAuthorityLocation));
    assert_eq!(require_authority(&present, Err(ScriptError::InvalidAuthority)), Err(Error::InvalidMetaData));
    assert_eq!(require_authority(&present, Err(ScriptError::Other)), Err(Error::SyscallUnknown));
    assert_eq!(require_authority(&None, Ok(true)), Err(Error::AuthorityMissing));
}

#[test]
fn shard_range_prefix() {
    assert_eq!(load_access_list_range(&range_data(key(1), key(2))), Ok((key(1), key(2))));
    assert_eq!(load_access_list_range(&range_data(key(2), key(1))), Err(Error::InvalidShardData));
    let mut short = range_data(key(1), key(2));
    short.truncate(70);
    assert_eq!(load_access_list_range(&short), Err(Error::InvalidShardData));
    let mut wrong_size = range_data(key(1), key(2));
    wrong_size[0] = 81;
    assert_eq!(load_access_list_range(&wrong_size), Err(Error::InvalidShardData));
    let mut wide = range_data(key(1), key(2));
    wide[4] = 16;
    assert_eq!(load_access_list_range(&wide), Err(Error::InvalidShardData));
}

#[test]
fn shard_index_needs_order() {
    let mut t = empty_tx();
    t.cell_deps = vec![typed(LIST_HASH, range_data(key(1), key(2))), holder(key(0), vec![]), typed(LIST_HASH, range_data(key(3), key(4)))];
    let index = build_shard_index(&t, &LIST_HASH).unwrap();
    assert_eq!(index.len(), 2);
    assert_eq!(index[1].dep_index, 2);
    t.cell_deps = vec![typed(LIST_HASH, range_data(key(3), key(4))), typed(LIST_HASH, range_data(key(1), key(2)))];
    assert!(matches!(build_shard_index(&t, &LIST_HASH), Err(Error::InvalidShardData)));
    let s = ShardIndex { start: key(1), end: key(3), dep_index: 0 };
    assert!(shard_covers_index(&s, &key(2)));
    assert!(shard_covers_index(&s, &key(3)));
    assert!(!shard_covers_index(&s, &key(4)));
}

#[test]
fn sorted_distinct_locks_and_search() {
    let locks = [key(5), key(1), key(5), key(3)];
    assert_eq!(sort_dedup_locks(&locks), vec![key(1), key(3), key(5)]);
    let entries = vec![key(1), key(3), key(5), key(7)];
    assert!(binary_contains(&entries, &key(5)));
    assert!(binary_contains(&entries, &key(1)));
    assert!(!binary_contains(&entries, &key(4)));
    assert!(!binary_contains(&entries, &key(8)));
    assert!(!binary_contains(&vec![], &key(8)));
}

fn access_tx(holders: Vec<[u8; 32]>) -> TxView {
    let mut t = empty_tx();
    t.cell_deps = vec![typed(LIST_HASH, range_data([0u8; 32], [0xffu8; 32]))];
    t.group_outputs = holders.into_iter().map(|h| holder(h, amount(1))).collect();
    t
}

#[test]
fn whitelist_and_blacklist_checks() {
    let t = access_tx(vec![key(2), key(4)]);
    let listed = vec![Some(vec![key(2), key(4)])];
    let partly = vec![Some(vec![key(2)])];
    let whitelist = parse_meta(&meta(0b0110, 0));
    let blacklist = parse_meta(&meta(0b0010, 0));
    let disabled = parse_meta(&meta(0, 0));
    assert_eq!(validate_if_enabled(&t, &whitelist, CheckedLocks::Outputs, &LIST_HASH, &listed), Ok(()));
    assert_eq!(validate_if_enabled(&t, &whitelist, CheckedLocks::Outputs, &LIST_HASH, &partly), Err(Error::AccessDenied));
    assert_eq!(validate_if_enabled(&t, &blacklist, CheckedLocks::Outputs, &LIST_HASH, &partly), Err(Error::AccessDenied));
    assert_eq!(validate_if_enabled(&t, &blacklist, CheckedLocks::Outputs, &LIST_HASH, &vec![Some(vec![])]), Ok(()));
    assert_eq!(validate_if_enabled(&t, &disabled, CheckedLocks::Outputs, &LIST_HASH, &vec![None]), Ok(()));
    assert_eq!(validate_if_enabled(&t, &whitelist, CheckedLocks::Outputs, &LIST_HASH, &vec![None]), Err(Error::InvalidShardData));
}

#[test]
fn uncovered_lock_error_depends_on_mode() {
    let mut t = empty_tx();
    t.cell_deps = vec![typed(LIST_HASH, range_data(key(0), key(1)))];
    t.group_outputs = vec![holder(key(3), amount(1))];
    let shards = vec![Some(vec![])];
    let whitelist = parse_meta(&meta(0b0110, 0));
    let blacklist = parse_meta(&meta(0b0010, 0));
    assert_eq!(validate_if_enabled(&t, &whitelist, CheckedLocks::Outputs, &LIST_HASH, &shards), Err(Error::AccessDenied));
    assert_eq!(validate_if_enabled(&t, &blacklist, CheckedLocks::Outputs, &LIST_HASH, &shards), Err(Error::InvalidShardData));
}

#[test]
fn batches_of_more_than_sixty_four_locks() {
    let mut holders: Vec<[u8; 32]> = (0u8..70).map(|i| { let mut k = [0u8; 32]; k[31] = i; k }).collect();
    let t = access_tx(holders.clone());
    let all = Some(holders.clone());
    let whitelist = parse_meta(&meta(0b0110, 0));
    assert_eq!(validate_if_enabled(&t, &whitelist, CheckedLocks::Outputs, &LIST_HASH, &vec![all]), Ok(()));
    holders.remove(66);
    let missing_late = Some(holders);
    assert_eq!(validate_if_enabled(&t, &whitelist, CheckedLocks::Outputs, &LIST_HASH, &vec![missing_late]), Err(Error::AccessDenied));
    let verifier = AccessVerifier::new(&t, true, CheckedLocks::InputsAndOutputs, &LIST_HASH).unwrap();
    assert_eq!(verifier.checked_sources(), vec![Source::GroupInput, Source::GroupOutput]);
}

fn script_bytes(code: [u8; 32]) -> (Vec<u8>, [u8; 32]) {
    let script = Script::new_builder().code_hash(code.pack()).hash_type(Byte::new(1)).args(vec![1u8, 2, 3].pack()).build();
    let hash: [u8; 32] = script.calc_script_hash().unpack();
    (script.as_slice().to_vec(), hash)
}

#[test]
fn presence_extensions_use_script_hash() {
    let (bytes, hash) = script_bytes([0x11u8; 32]);
    let mut t = empty_tx();
    t.inputs = vec![holder(hash, vec![])];
    let lock_ext = vec![Extension { extension_type: 0, script: bytes.clone() }];
    assert_eq!(run_extensions(&t, Operation::Transfer, &lock_ext, None, &vec![Err(Error::ExtensionFailed)]), Ok(()));
    let mut other = empty_tx();
    other.inputs = vec![holder(key(1), vec![])];
    assert_eq!(run_extensions(&other, Operation::Transfer, &lock_ext, None, &vec![Err(Error::ExtensionFailed)]), Err(Error::ExtensionFailed));
    let output_type = vec![Extension { extension_type: 2, script: bytes.clone() }];
    other.outputs = vec![typed(hash, vec![])];
    assert_eq!(run_extensions(&other, Operation::Mint, &output_type, Some(true), &vec![Err(Error::ExtensionFailed)]), Ok(()));
    let input_type = vec![Extension { extension_type: 1, script: bytes }];
    assert_eq!(run_extensions(&other, Operation::Mint, &input_type, Some(true), &vec![Err(Error::ExtensionFailed)]), Err(Error::ExtensionFailed));
    let malformed = vec![Extension { extension_type: 0, script: vec![1, 2, 3] }];
    assert_eq!(run_extensions(&t, Operation::Transfer, &malformed, None, &vec![Err(Error::ExtensionFailed)]), Err(Error::InvalidMetaData));
}

#[test]
fn executed_extensions_and_codes() {
    let t = empty_tx();
    let executed = vec![Extension { extension_type: 3, script: vec![] }, Extension { extension_type: 4, script: vec![] }];
    assert_eq!(run_extensions(&t, Operation::ProtocolBurn, &executed, None, &vec![Ok(()), Ok(())]), Ok(()));
    assert_eq!(run_extensions(&t, Operation::ProtocolBurn, &executed, None, &vec![Ok(()), Err(Error::ExtensionFailed)]), Err(Error::ExtensionFailed));
    assert_eq!(run_extensions(&t, Operation::ProtocolBurn, &executed, None, &vec![Ok(()), Err(Error::InvalidMetaData)]), Err(Error::InvalidMetaData));
    let unknown = vec![Extension { extension_type: 9, script: vec![] }];
    assert_eq!(run_extensions(&t, Operation::Transfer, &unknown, None, &vec![Ok(())]), Err(Error::InvalidMetaData));
    assert_eq!(mint_authority_context_code(Some(true)), 1);
    assert_eq!(mint_authority_context_code(Some(false)), 0);
    assert_eq!(mint_authority_context_code(None), 2);
    assert_eq!(Operation::Transfer.code(), 0);
    assert_eq!(Operation::Mint.code(), 1);
    assert_eq!(Operation::ProtocolBurn.code(), 2);
    assert_eq!(script_hash_type(4), Ok(ScriptHashKind::Data2));
    assert_eq!(script_hash_type(3), Err(Error::InvalidMetaData));
}

fn flow_tx(input_amount: u128, output_amount: u128) -> TxView {
    let mut t = empty_tx();
    t.group_inputs = vec![holder(key(1), amount(input_amount))];
    t.group_outputs = if output_amount > 0 { vec![holder(key(2), amount(output_amount))] } else { vec![] };
    t
}

#[test]
fn transfer_flows() {
    let mut t = flow_tx(10, 10);
    t.cell_deps = vec![typed(META, vec![])];
    let mut ctx = context(&t);
    ctx.dep_metas = vec![Some(meta(0, 0))];
    assert_eq!(main(&t, &ctx), Ok(()));
    ctx.dep_metas = vec![Some(meta(0b1000, 0))];
    assert_eq!(main(&t, &ctx), Err(Error::MetaStateMismatch));
    let bare = flow_tx(10, 10);
    assert_eq!(main(&bare, &context(&bare)), Err(Error::MetaMissing));
}

#[test]
fn mint_flows() {
    let mut t = flow_tx(10, 20);
    t.cell_deps = vec![typed(META, vec![])];
    let mut ctx = context(&t);
    ctx.dep_metas = vec![Some(meta(1, 10))];
    assert_eq!(main(&t, &ctx), Err(Error::MetaInputMissing));
    ctx.dep_metas = vec![Some(meta(0, 0))];
    assert_eq!(main(&t, &ctx), Ok(()));
    ctx.mint_check.passed = Ok(false);
    assert_eq!(main(&t, &ctx), Err(Error::AuthorityFailed));
    let mut first = flow_tx(0, 20);
    assert_eq!(main(&first, &context(&first)), Err(Error::MetaMissing));
    first.outputs = vec![typed(META, vec![])];
    let mut first_ctx = context(&first);
    assert_eq!(main(&first, &first_ctx), Err(Error::InvalidMetaData));
    first_ctx.output_metas = vec![Some(meta(1, 20))];
    assert_eq!(main(&first, &first_ctx), Ok(()));
}

#[test]
fn destruction_and_burn_flows() {
    let t = flow_tx(10, 0);
    assert_eq!(main(&t, &context(&t)), Ok(()));
    let mut paused_input = flow_tx(10, 0);
    paused_input.inputs = vec![typed(META, vec![])];
    let mut ctx = context(&paused_input);
    ctx.input_metas = vec![Some(meta(0b1000, 0))];
    assert_eq!(main(&paused_input, &ctx), Ok(()));
    let partial = flow_tx(10, 4);
    assert_eq!(main(&partial, &context(&partial)), Err(Error::MetaMissing));
    let mut burn = flow_tx(10, 4);
    burn.inputs = vec![typed(META, vec![])];
    let mut burn_ctx = context(&burn);
    burn_ctx.input_metas = vec![Some(meta(1, 100))];
    assert_eq!(validate_negative_delta(&burn, &META, 4, &burn_ctx), Ok(()));
    burn_ctx.extension_runs = vec![Ok(())];
    assert_eq!(validate_negative_delta(&burn, &META, 4, &burn_ctx), Err(Error::ExtensionFailed));
}
