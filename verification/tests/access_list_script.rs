use standard_udt_contracts::access_list::entry::{collect_group_shards, main, program_entry, validate_group_output_locks, ListContext};
use standard_udt_contracts::access_list::error::Error;
use standard_udt_contracts::access_list::meta::{load_meta_context, DecodedMetas};
use standard_udt_contracts::chain::{CellView, ScriptView, TxView};
use standard_udt_contracts::sys::ScriptError;
use standard_udt_contracts::types::{AccessListShard, Authority, AuthorityRequirement, ShardRange, XudtMeta};

const META: [u8; 32] = [7u8; 32];
const ALWAYS_SUCCESS: [u8; 32] = [
    0x3b, 0x52, 0x1c, 0xc4, 0xb5, 0x52, 0xf1, 0x09, 0xd0, 0x92, 0xd8, 0xcc, 0x46, 0x8a, 0x80, 0x48,
    0xac, 0xb5, 0x3c, 0x59, 0x52, 0xdb, 0xe7, 0x69, 0xd2, 0xb2, 0xf9, 0xcf, 0x6e, 0x47, 0xf7, 0xf1,
];

fn cell(lock_code: [u8; 32], hash_type: u8, type_hash: Option<[u8; 32]>) -> CellView {
    CellView {
        lock_hash: [3u8; 32],
        lock: ScriptView { code_hash: lock_code, hash_type, args: vec![] },
        type_script: None,
        type_hash,
        data: vec![],
    }
}

fn meta(flags: u8) -> XudtMeta {
    XudtMeta {
        config_flags: flags,
        current_supply: 0,
        decimals: 0,
        name: vec![],
        symbol: vec![],
        uri: vec![],
        extra_data: vec![],
        mint_authority: Some(Authority { authority_type: 0, script_hash: [5u8; 32], script: None }),
        metadata_authority: None,
        access_authority: Some(Authority { authority_type: 0, script_hash: [6u8; 32], script: None }),
        extensions: vec![],
    }
}

fn requirement(result: Result<(), ScriptError>) -> AuthorityRequirement {
    AuthorityRequirement {
        authority: Some(Authority { authority_type: 0, script_hash: [6u8; 32], script: None }),
        fallback: Some(Authority { authority_type: 0, script_hash: [5u8; 32], script: None }),
        result,
    }
}

fn full_shard() -> AccessListShard {
    AccessListShard { range: ShardRange { start: [0u8; 32], end: [0xffu8; 32] }, entries: vec![] }
}

fn tx(input_meta: bool, output_meta: bool, group_inputs: usize, group_outputs: usize) -> TxView {
    TxView {
        script_args: META.to_vec(),
        script_hash: [1u8; 32],
        inputs: if input_meta { vec![cell([0u8; 32], 1, Some(META))] } else { vec![] },
        outputs: if output_meta { vec![cell([0u8; 32], 1, Some(META))] } else { vec![] },
        cell_deps: vec![],
        group_inputs: (0..group_inputs).map(|_| cell(ALWAYS_SUCCESS, 4, None)).collect(),
        group_outputs: (0..group_outputs).map(|_| cell(ALWAYS_SUCCESS, 4, None)).collect(),
    }
}

fn metas(input: Option<u8>, output: Option<u8>) -> DecodedMetas {
    DecodedMetas {
        inputs: input.map(|f| vec![Some(meta(f))]).unwrap_or_default(),
        outputs: output.map(|f| vec![Some(meta(f))]).unwrap_or_default(),
        cell_deps: vec![],
    }
}

#[test]
fn create_with_full_domain() {
    let t = tx(true, true, 0, 1);
    let ctx = ListContext { metas: metas(Some(0), Some(2)), input_shards: vec![], output_shards: vec![Some(full_shard())], authority: requirement(Ok(())) };
    assert_eq!(main(&t, ctx), Ok(()));
    let partial = AccessListShard { range: ShardRange { start: [0u8; 32], end: [0x7fu8; 32] }, entries: vec![] };
    let ctx = ListContext { metas: metas(Some(0), Some(2)), input_shards: vec![], output_shards: vec![Some(partial)], authority: requirement(Ok(())) };
    assert_eq!(main(&t, ctx), Err(Error::InvalidShardSet));
}

#[test]
fn authority_and_decoding_failures() {
    let t = tx(true, true, 0, 1);
    let ctx = ListContext { metas: metas(Some(0), Some(2)), input_shards: vec![], output_shards: vec![Some(full_shard())], authority: requirement(Err(ScriptError::AuthorityFailed)) };
    assert_eq!(main(&t, ctx), Err(Error::AuthorityFailed));
    let ctx = ListContext { metas: metas(Some(0), Some(2)), input_shards: vec![], output_shards: vec![None], authority: requirement(Ok(())) };
    assert_eq!(main(&t, ctx), Err(Error::InvalidShardData));
    let ctx = ListContext { metas: metas(Some(0), Some(4)), input_shards: vec![], output_shards: vec![Some(full_shard())], authority: requirement(Ok(())) };
    assert_eq!(program_entry(&t, ctx), Error::InvalidMetaData.code());
    let none = tx(false, false, 0, 1);
    let ctx = ListContext { metas: metas(None, None), input_shards: vec![], output_shards: vec![Some(full_shard())], authority: requirement(Ok(())) };
    assert_eq!(main(&none, ctx), Err(Error::MetaMissing));
}

#[test]
fn output_locks_and_context() {
    let mut t = tx(true, false, 0, 2);
    assert_eq!(validate_group_output_locks(&t), Ok(()));
    t.group_outputs[1].lock.hash_type = 1;
    assert_eq!(validate_group_output_locks(&t), Err(Error::InvalidArgs));
    let c = load_meta_context(&t, &META, &metas(Some(2), None)).unwrap();
    assert_eq!(c.input_config_flags, Some(2));
    assert_eq!(c.output_config_flags, None);
    assert!(c.access_authority.is_some() && c.mint_authority.is_some());
    let mut pending = vec![Some(full_shard()), None];
    assert_eq!(collect_group_shards(&mut pending).err(), Some(Error::InvalidShardData));
    let mut fine = vec![Some(full_shard())];
    assert_eq!(collect_group_shards(&mut fine).map(|v| v.len()), Ok(1));
}
