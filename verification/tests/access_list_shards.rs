use standard_udt_contracts::access_list::error::Error;
use standard_udt_contracts::access_list::mode::AccessMode;
use standard_udt_contracts::access_list::shards::{
    classify_lifecycle, is_active, shard_end, shard_start, validate_contiguous_local_range, validate_full_domain,
    validate_ordered_non_overlapping, validate_same_contiguous_coverage, validate_shards_for_modes,
    AccessListLifecycle,
};
use standard_udt_contracts::types::{AccessListShard, ShardRange};

fn key(first: u8, rest: u8) -> [u8; 32] {
    let mut k = [rest; 32];
    k[0] = first;
    k
}

fn shard(start: [u8; 32], end: [u8; 32]) -> AccessListShard {
    AccessListShard { range: ShardRange { start, end }, entries: vec![] }
}

fn halves() -> Vec<AccessListShard> {
    vec![shard(key(0x00, 0x00), key(0x7f, 0xff)), shard(key(0x80, 0x00), key(0xff, 0xff))]
}

#[test]
fn access_modes_from_flags() {
    assert_eq!(AccessMode::from_flags(0b0000), Ok(AccessMode::Disabled));
    assert_eq!(AccessMode::from_flags(0b0010), Ok(AccessMode::Blacklist));
    assert_eq!(AccessMode::from_flags(0b0110), Ok(AccessMode::Whitelist));
    assert_eq!(AccessMode::from_flags(0b0100), Err(Error::InvalidMetaData));
    assert!(!is_active(AccessMode::Disabled) && is_active(AccessMode::Whitelist));
}

#[test]
fn lifecycle_classification() {
    assert_eq!(classify_lifecycle(AccessMode::Disabled, AccessMode::Disabled), Err(Error::InvalidShardSet));
    assert_eq!(classify_lifecycle(AccessMode::Disabled, AccessMode::Blacklist), Ok(AccessListLifecycle::Create));
    assert_eq!(classify_lifecycle(AccessMode::Whitelist, AccessMode::Disabled), Ok(AccessListLifecycle::Destroy));
    assert_eq!(classify_lifecycle(AccessMode::Whitelist, AccessMode::Whitelist), Ok(AccessListLifecycle::Update));
    assert_eq!(classify_lifecycle(AccessMode::Blacklist, AccessMode::Whitelist), Ok(AccessListLifecycle::Replace));
}

#[test]
fn ordering_and_full_domain() {
    let h = halves();
    assert_eq!(validate_ordered_non_overlapping(&h), Ok(()));
    assert_eq!(validate_full_domain(&h), Ok(()));
    let reversed = vec![shard(key(0x80, 0x00), key(0xff, 0xff)), shard(key(0x00, 0x00), key(0x7f, 0xff))];
    assert_eq!(validate_ordered_non_overlapping(&reversed), Err(Error::InvalidShardSet));
    let gap = vec![shard(key(0x00, 0x00), key(0x7f, 0xff)), shard(key(0x80, 0x01), key(0xff, 0xff))];
    assert_eq!(validate_ordered_non_overlapping(&gap), Ok(()));
    assert_eq!(validate_full_domain(&gap), Err(Error::InvalidShardSet));
    assert_eq!(validate_full_domain(&[]), Err(Error::InvalidShardSet));
    assert_eq!(shard_start(&h[1]), key(0x80, 0x00));
    assert_eq!(shard_end(&h[0]), key(0x7f, 0xff));
}

#[test]
fn contiguous_runs_and_same_coverage() {
    let split = || vec![shard(key(0x10, 0x00), key(0x1f, 0xff)), shard(key(0x20, 0x00), key(0x2f, 0xff))];
    let merged = || vec![shard(key(0x10, 0x00), key(0x2f, 0xff))];
    assert_eq!(validate_contiguous_local_range(&split()), Ok(()));
    assert_eq!(validate_contiguous_local_range(&[]), Err(Error::InvalidShardSet));
    assert_eq!(validate_same_contiguous_coverage(&split(), &merged()), Ok(()));
    let shorter = vec![shard(key(0x10, 0x00), key(0x2f, 0xfe))];
    assert_eq!(validate_same_contiguous_coverage(&split(), &shorter), Err(Error::InvalidShardSet));
    assert_eq!(validate_shards_for_modes(AccessMode::Whitelist, AccessMode::Whitelist, &split(), &merged()), Ok(()));
    let gapped = vec![shard(key(0x10, 0x00), key(0x1f, 0xff)), shard(key(0x20, 0x01), key(0x2f, 0xff))];
    assert_eq!(validate_same_contiguous_coverage(&gapped, &merged()), Err(Error::InvalidShardSet));
}

#[test]
fn lifecycle_shard_requirements() {
    assert_eq!(validate_shards_for_modes(AccessMode::Disabled, AccessMode::Blacklist, &[], &halves()), Ok(()));
    assert_eq!(validate_shards_for_modes(AccessMode::Disabled, AccessMode::Blacklist, &halves(), &halves()), Err(Error::InvalidShardSet));
    assert_eq!(validate_shards_for_modes(AccessMode::Blacklist, AccessMode::Disabled, &halves(), &[]), Ok(()));
    assert_eq!(validate_shards_for_modes(AccessMode::Blacklist, AccessMode::Disabled, &halves(), &halves()), Err(Error::InvalidShardSet));
    assert_eq!(validate_shards_for_modes(AccessMode::Blacklist, AccessMode::Whitelist, &halves(), &halves()), Ok(()));
    assert_eq!(validate_shards_for_modes(AccessMode::Blacklist, AccessMode::Whitelist, &halves()[..1], &halves()), Err(Error::InvalidShardSet));
    assert_eq!(validate_shards_for_modes(AccessMode::Disabled, AccessMode::Disabled, &[], &[]), Err(Error::InvalidShardSet));
}
