//! AccessList shard sets: ordering, contiguity, full-domain coverage and the lifecycle rules.
use vstd::prelude::*;
use crate::access_list::error::Error;
use crate::access_list::mode::AccessMode;
use crate::byte32::{
    byte32_eq, byte32_le, increment_byte32, is_max32, is_zero32, lemma_increment_len,
    lemma_increment_successor, lemma_lex_le_lt_trans, lemma_lex_le_not_lt, lemma_lex_le_trans,
    lemma_lex_lt_le_trans, lemma_lex_total, lemma_max_greatest, lex_le, lex_lt, max32, spec_increment,
    zero32,
};
use crate::domain::{lemma_covering_ranges_hold_every_key, range_holds, range_links, ranges_cover_at};
use crate::types::AccessListShard;

verus! {

/// What a transaction does to the AccessList of a metadata cell.
#[derive(Clone, Copy, Debug, PartialEq, Eq, Structural)]
pub enum AccessListLifecycle {
    Create,
    Update,
    Destroy,
    Replace,
}

/// Shard `i + 1` starts strictly after shard `i` ends.
pub open spec fn gap_ok(s: Seq<AccessListShard>, i: int) -> bool {
    lex_lt(s[i].range.end@, s[i + 1].range.start@)
}

/// Shards are sorted by range and no two overlap.
pub open spec fn ordered_non_overlapping(s: Seq<AccessListShard>) -> bool {
    forall|i: int| 0 <= i < s.len() - 1 ==> #[trigger] gap_ok(s, i)
}

/// Shard `i + 1` starts right after the key shard `i` ends with.
pub open spec fn links(s: Seq<AccessListShard>, i: int) -> bool {
    spec_increment(s[i].range.end@) == Some(s[i + 1].range.start@)
}

/// Shards `0..=k` cover every key without a gap: shard 0 starts at the least key, each next
/// shard starts right after the previous one ends, and shard `k` ends at the greatest key.
pub open spec fn covers_domain_at(s: Seq<AccessListShard>, k: int) -> bool {
    &&& 0 <= k < s.len()
    &&& s[0].range.start@ == zero32()
    &&& s[k].range.end@ == max32()
    &&& forall|i: int| 0 <= i < k ==> #[trigger] links(s, i)
}

/// The shards cover the whole key domain from the first one on.
pub open spec fn full_domain(s: Seq<AccessListShard>) -> bool {
    exists|k: int| covers_domain_at(s, k)
}

/// Shard `i` does not end at the greatest key.
pub open spec fn not_max_end(s: Seq<AccessListShard>, i: int) -> bool {
    s[i].range.end@ != max32()
}

/// The shards, up to the first one that ends at the greatest key (shard `m`, or all of them
/// when `m` is their number), follow one another without a gap.
pub open spec fn contiguous_until(s: Seq<AccessListShard>, m: int) -> bool {
    &&& 0 <= m <= s.len()
    &&& forall|j: int| 0 <= j < m ==> #[trigger] not_max_end(s, j)
    &&& m < s.len() ==> s[m].range.end@ == max32()
    &&& forall|i: int| 0 <= i < m && i + 1 < s.len() ==> #[trigger] links(s, i)
}

/// A non-empty run of shards that follow one another without a gap.
pub open spec fn contiguous_local(s: Seq<AccessListShard>) -> bool {
    s.len() > 0 && exists|m: int| contiguous_until(s, m)
}

/// Input and output shards each form a contiguous run, and both runs cover the same range.
pub open spec fn same_contiguous_coverage(ins: Seq<AccessListShard>, outs: Seq<AccessListShard>) -> bool {
    &&& contiguous_local(ins)
    &&& contiguous_local(outs)
    &&& ins[0].range.start@ == outs[0].range.start@
    &&& ins.last().range.end@ == outs.last().range.end@
}

/// A mode other than `Disabled`.
pub open spec fn spec_active(m: AccessMode) -> bool {
    m != AccessMode::Disabled
}

/// The lifecycle of a pair of modes; `None` when access is disabled on both sides.
pub open spec fn lifecycle_of(input_mode: AccessMode, output_mode: AccessMode) -> Option<AccessListLifecycle> {
    if !spec_active(input_mode) && !spec_active(output_mode) {
        None
    } else if !spec_active(input_mode) {
        Some(AccessListLifecycle::Create)
    } else if !spec_active(output_mode) {
        Some(AccessListLifecycle::Destroy)
    } else if input_mode == output_mode {
        Some(AccessListLifecycle::Update)
    } else {
        Some(AccessListLifecycle::Replace)
    }
}

/// The shard sets a transaction consumes and produces are valid for the access modes before and
/// after it.
pub open spec fn shards_valid_for_modes(
    input_mode: AccessMode,
    output_mode: AccessMode,
    ins: Seq<AccessListShard>,
    outs: Seq<AccessListShard>,
) -> bool {
    &&& ordered_non_overlapping(ins)
    &&& ordered_non_overlapping(outs)
    &&& match lifecycle_of(input_mode, output_mode) {
        None => false,
        Some(AccessListLifecycle::Create) => ins.len() == 0 && full_domain(outs),
        Some(AccessListLifecycle::Destroy) => full_domain(ins) && outs.len() == 0,
        Some(AccessListLifecycle::Replace) => full_domain(ins) && full_domain(outs),
        Some(AccessListLifecycle::Update) => same_contiguous_coverage(ins, outs),
    }
}

/// Checks the consumed and produced shard sets against the access modes before and after the
/// transaction.
pub fn validate_shards_for_modes(
    input_mode: AccessMode,
    output_mode: AccessMode,
    input_shards: &[AccessListShard],
    output_shards: &[AccessListShard],
) -> (r: Result<(), Error>)
    ensures
        r is Ok <==> shards_valid_for_modes(input_mode, output_mode, input_shards@, output_shards@),
        r matches Err(e) ==> e == Error::InvalidShardSet,
{
    validate_ordered_non_overlapping(input_shards)?;
    validate_ordered_non_overlapping(output_shards)?;

    match classify_lifecycle(input_mode, output_mode)? {
        AccessListLifecycle::Create => {
            if input_shards.len() != 0 {
                return Err(Error::InvalidShardSet);
            }
            validate_full_domain(output_shards)
        },
        AccessListLifecycle::Destroy => {
            validate_full_domain(input_shards)?;
            if output_shards.len() == 0 {
                Ok(())
            } else {
                Err(Error::InvalidShardSet)
            }
        },
        AccessListLifecycle::Replace => {
            validate_full_domain(input_shards)?;
            validate_full_domain(output_shards)
        },
        AccessListLifecycle::Update => validate_same_contiguous_coverage(input_shards, output_shards),
    }
}

/// The lifecycle a pair of access modes stands for; disabled on both sides is an invalid shard set.
pub fn classify_lifecycle(input_mode: AccessMode, output_mode: AccessMode) -> (r: Result<
    AccessListLifecycle,
    Error,
>)
    ensures
        match lifecycle_of(input_mode, output_mode) {
            Some(l) => r == Ok::<AccessListLifecycle, Error>(l),
            None => r == Err::<AccessListLifecycle, Error>(Error::InvalidShardSet),
        },
{
    match (is_active(input_mode), is_active(output_mode)) {
        (false, false) => Err(Error::InvalidShardSet),
        (false, true) => Ok(AccessListLifecycle::Create),
        (true, false) => Ok(AccessListLifecycle::Destroy),
        (true, true) => {
            if input_mode == output_mode {
                Ok(AccessListLifecycle::Update)
            } else {
                Ok(AccessListLifecycle::Replace)
            }
        },
    }
}

/// Whether a mode enables access checks.
pub fn is_active(mode: AccessMode) -> (r: bool)
    ensures
        r == spec_active(mode),
{
    mode != AccessMode::Disabled
}

/// Checks that both shard sets form contiguous runs over the same range.
pub fn validate_same_contiguous_coverage(
    input_shards: &[AccessListShard],
    output_shards: &[AccessListShard],
) -> (r: Result<(), Error>)
    ensures
        r is Ok <==> same_contiguous_coverage(input_shards@, output_shards@),
        r matches Err(e) ==> e == Error::InvalidShardSet,
{
    validate_contiguous_local_range(input_shards)?;
    validate_contiguous_local_range(output_shards)?;

    let n_in = input_shards.len();
    let n_out = output_shards.len();
    let input_start = shard_start(&input_shards[0]);
    let input_end = shard_end(&input_shards[n_in - 1]);
    let output_start = shard_start(&output_shards[0]);
    let output_end = shard_end(&output_shards[n_out - 1]);

    if byte32_eq(&input_start, &output_start) && byte32_eq(&input_end, &output_end) {
        Ok(())
    } else {
        Err(Error::InvalidShardSet)
    }
}

/// Checks that the shards form a non-empty run without gaps, up to the first shard that ends at
/// the greatest key.
pub fn validate_contiguous_local_range(shards: &[AccessListShard]) -> (r: Result<(), Error>)
    ensures
        r is Ok <==> contiguous_local(shards@),
        r matches Err(e) ==> e == Error::InvalidShardSet,
{
    if shards.len() == 0 {
        return Err(Error::InvalidShardSet);
    }
    let n = shards.len();
    let mut expected_start = shard_start(&shards[0]);
    let mut i: usize = 0;
    while i < n
        invariant
            n == shards@.len(),
            n > 0,
            i <= n,
            expected_start@.len() == 32,
            i == 0 ==> expected_start@ == shards@[0].range.start@,
            i > 0 ==> spec_increment(shards@[i - 1].range.end@) == Some(expected_start@),
            forall|j: int| 0 <= j < i ==> #[trigger] not_max_end(shards@, j),
            forall|j: int| 0 <= j < i - 1 ==> #[trigger] links(shards@, j),
        decreases n - i,
    {
        let start = shard_start(&shards[i]);
        if !byte32_eq(&start, &expected_start) {
            proof {
                assert(i > 0);
                assert(!links(shards@, i - 1));
                assert forall|m: int| !contiguous_until(shards@, m) by {
                    if contiguous_until(shards@, m) {
                        if m < i {
                            assert(not_max_end(shards@, m));
                        } else {
                            assert(links(shards@, i - 1));
                        }
                    }
                }
            }
            return Err(Error::InvalidShardSet);
        }
        let end = shard_end(&shards[i]);
        match increment_byte32(&end) {
            None => {
                proof {
                    if i > 0 {
                        assert(links(shards@, i - 1));
                    }
                    assert(contiguous_until(shards@, i as int));
                }
                return Ok(());
            },
            Some(next_start) => {
                proof {
                    lemma_increment_len(end@);
                    assert(not_max_end(shards@, i as int));
                    if i > 0 {
                        assert(links(shards@, i - 1));
                    }
                }
                expected_start = next_start;
            },
        }
        i = i + 1;
    }
    assert(contiguous_until(shards@, n as int));
    Ok(())
}

/// Checks that the shards are sorted by range and do not overlap.
pub fn validate_ordered_non_overlapping(shards: &[AccessListShard]) -> (r: Result<(), Error>)
    ensures
        r is Ok <==> ordered_non_overlapping(shards@),
        r matches Err(e) ==> e == Error::InvalidShardSet,
{
    let n = shards.len();
    if n < 2 {
        return Ok(());
    }
    let mut i: usize = 0;
    while i + 1 < n
        invariant
            n == shards@.len(),
            n >= 2,
            i + 1 <= n,
            forall|j: int| 0 <= j < i ==> #[trigger] gap_ok(shards@, j),
        decreases n - i,
    {
        let next_start = shard_start(&shards[i + 1]);
        let end = shard_end(&shards[i]);
        if byte32_le(&next_start, &end) {
            proof {
                lemma_lex_le_not_lt(next_start@, end@);
                assert(!gap_ok(shards@, i as int));
            }
            return Err(Error::InvalidShardSet);
        }
        proof {
            lemma_lex_total(next_start@, end@);
        }
        i = i + 1;
    }
    Ok(())
}

/// Checks that the shards cover the whole key domain, starting with the first shard.
pub fn validate_full_domain(shards: &[AccessListShard]) -> (r: Result<(), Error>)
    ensures
        r is Ok <==> full_domain(shards@),
        r matches Err(e) ==> e == Error::InvalidShardSet,
{
    let n = shards.len();
    if n == 0 || !is_zero32(&shard_start(&shards[0])) {
        return Err(Error::InvalidShardSet);
    }
    let mut expected_start = [0u8; 32];
    assert(expected_start@ =~= zero32());
    let mut i: usize = 0;
    while i < n
        invariant
            n == shards@.len(),
            n > 0,
            i <= n,
            shards@[0].range.start@ == zero32(),
            expected_start@.len() == 32,
            i == 0 ==> expected_start@ == zero32(),
            i > 0 ==> spec_increment(shards@[i - 1].range.end@) == Some(expected_start@),
            forall|j: int| 0 <= j < i ==> #[trigger] not_max_end(shards@, j),
            forall|j: int| 0 <= j < i - 1 ==> #[trigger] links(shards@, j),
        decreases n - i,
    {
        let start = shard_start(&shards[i]);
        if !byte32_eq(&start, &expected_start) {
            proof {
                assert forall|k: int| !covers_domain_at(shards@, k) by {
                    if covers_domain_at(shards@, k) {
                        if k < i {
                            assert(not_max_end(shards@, k));
                        } else if i > 0 {
                            assert(links(shards@, i - 1));
                        }
                    }
                }
            }
            return Err(Error::InvalidShardSet);
        }
        let end = shard_end(&shards[i]);
        match increment_byte32(&end) {
            None => {
                proof {
                    if i > 0 {
                        assert(links(shards@, i - 1));
                    }
                    assert(covers_domain_at(shards@, i as int));
                }
                return if is_max32(&end) {
                    Ok(())
                } else {
                    Err(Error::InvalidShardSet)
                };
            },
            Some(next_start) => {
                proof {
                    lemma_increment_len(end@);
                    assert(not_max_end(shards@, i as int));
                    if i > 0 {
                        assert(links(shards@, i - 1));
                    }
                }
                expected_start = next_start;
            },
        }
        i = i + 1;
    }
    proof {
        assert forall|k: int| !covers_domain_at(shards@, k) by {
            if covers_domain_at(shards@, k) {
                assert(not_max_end(shards@, k));
            }
        }
    }
    Err(Error::InvalidShardSet)
}

/// The key a shard's range starts with.
pub fn shard_start(shard: &AccessListShard) -> (r: [u8; 32])
    ensures
        r@ == shard.range.start@,
{
    shard.range.start
}

/// The key a shard's range ends with.
pub fn shard_end(shard: &AccessListShard) -> (r: [u8; 32])
    ensures
        r@ == shard.range.end@,
{
    shard.range.end
}

/// The key ranges of a list of shards.
pub open spec fn shard_ranges(s: Seq<AccessListShard>) -> Seq<(Seq<u8>, Seq<u8>)> {
    s.map_values(|x: AccessListShard| (x.range.start@, x.range.end@))
}

/// Shards that cover the whole key domain leave no key out: every 32-byte key lies in the range
/// of one of them, so a full-domain AccessList answers for every lock.
pub proof fn lemma_full_domain_holds_every_key(s: Seq<AccessListShard>, key: Seq<u8>)
    requires
        full_domain(s),
        key.len() == 32,
    ensures
        exists|i: int| 0 <= i < s.len() && lex_le(s[i].range.start@, key) && lex_le(key, s[i].range.end@),
{
    let r = shard_ranges(s);
    let k = choose|k: int| covers_domain_at(s, k);
    assert forall|i: int| 0 <= i < k implies #[trigger] range_links(r, i) by {
        assert(links(s, i));
    }
    assert(ranges_cover_at(r, k));
    assert forall|i: int| 0 <= i < r.len() implies (#[trigger] r[i]).0.len() == 32 && r[i].1.len() == 32 by {
        assert(r[i] == (s[i].range.start@, s[i].range.end@));
    }
    lemma_covering_ranges_hold_every_key(r, key);
    let i = choose|i: int| 0 <= i < r.len() && range_holds(r, i, key);
    assert(r[i] == (s[i].range.start@, s[i].range.end@));
}

/// Shard `i`'s range starts at or before its end.
pub open spec fn range_valid_at(s: Seq<AccessListShard>, i: int) -> bool {
    lex_le(s[i].range.start@, s[i].range.end@)
}

/// Every shard's range starts at or before its end.
pub open spec fn ranges_valid(s: Seq<AccessListShard>) -> bool {
    forall|i: int| 0 <= i < s.len() ==> #[trigger] range_valid_at(s, i)
}

/// Shard `i`'s range holds `key`.
pub open spec fn shard_holds_key(s: Seq<AccessListShard>, i: int, key: Seq<u8>) -> bool {
    lex_le(s[i].range.start@, key) && lex_le(key, s[i].range.end@)
}

/// Some shard's range holds `key`: the AccessList answers for it.
pub open spec fn shards_hold(s: Seq<AccessListShard>, key: Seq<u8>) -> bool {
    exists|i: int| 0 <= i < s.len() && #[trigger] shard_holds_key(s, i, key)
}

/// Along sorted, valid shards, starts and ends only grow.
proof fn lemma_bounds_grow(s: Seq<AccessListShard>, i: int, j: int)
    requires
        ordered_non_overlapping(s),
        ranges_valid(s),
        0 <= i <= j < s.len(),
    ensures
        lex_le(s[i].range.start@, s[j].range.start@),
        lex_le(s[i].range.end@, s[j].range.end@),
    decreases j - i,
{
    if i < j {
        lemma_bounds_grow(s, i, j - 1);
        assert(gap_ok(s, j - 1));
        assert(range_valid_at(s, j - 1));
        assert(range_valid_at(s, j));
        lemma_lex_le_trans(s[i].range.start@, s[j - 1].range.start@, s[j - 1].range.end@);
        lemma_lex_le_lt_trans(s[i].range.start@, s[j - 1].range.end@, s[j].range.start@);
        lemma_lex_le_lt_trans(s[i].range.end@, s[j - 1].range.end@, s[j].range.start@);
        lemma_lex_lt_le_trans(s[i].range.end@, s[j].range.start@, s[j].range.end@);
    }
}

/// Sorted shards that follow one another without a gap link all the way to the last one.
proof fn lemma_contiguous_links_all(s: Seq<AccessListShard>, m: int)
    requires
        ordered_non_overlapping(s),
        contiguous_until(s, m),
    ensures
        forall|i: int| 0 <= i < s.len() - 1 ==> #[trigger] links(s, i),
{
    if m < s.len() - 1 {
        assert(gap_ok(s, m));
        lemma_max_greatest(s[m + 1].range.start@);
        lemma_lex_le_not_lt(s[m + 1].range.start@, max32());
    }
}

/// From shard `j` on, linked shards hold every key from shard `j`'s start to the last end.
proof fn lemma_linked_hold_from(s: Seq<AccessListShard>, j: int, key: Seq<u8>)
    requires
        forall|i: int| 0 <= i < s.len() - 1 ==> #[trigger] links(s, i),
        key.len() == 32,
        0 <= j < s.len(),
        lex_le(s[j].range.start@, key),
        lex_le(key, s.last().range.end@),
    ensures
        shards_hold(s, key),
    decreases s.len() - j,
{
    if lex_le(key, s[j].range.end@) {
        assert(shard_holds_key(s, j, key));
    } else {
        lemma_lex_total(key, s[j].range.end@);
        if j == s.len() - 1 {
            lemma_lex_le_not_lt(key, s[j].range.end@);
        } else {
            assert(links(s, j));
            lemma_increment_successor(s[j].range.end@, key);
            lemma_linked_hold_from(s, j + 1, key);
        }
    }
}

/// A sorted, valid, contiguous run of shards holds exactly the keys from its first start to its
/// last end.
proof fn lemma_run_holds_iff_between(s: Seq<AccessListShard>, key: Seq<u8>)
    requires
        ordered_non_overlapping(s),
        ranges_valid(s),
        contiguous_local(s),
        key.len() == 32,
    ensures
        shards_hold(s, key) <==> (lex_le(s[0].range.start@, key) && lex_le(key, s.last().range.end@)),
{
    let m = choose|m: int| contiguous_until(s, m);
    lemma_contiguous_links_all(s, m);
    if shards_hold(s, key) {
        let i = choose|i: int| 0 <= i < s.len() && #[trigger] shard_holds_key(s, i, key);
        lemma_bounds_grow(s, 0, i);
        lemma_bounds_grow(s, i, s.len() - 1);
        lemma_lex_le_trans(s[0].range.start@, s[i].range.start@, key);
        lemma_lex_le_trans(key, s[i].range.end@, s.last().range.end@);
    }
    if lex_le(s[0].range.start@, key) && lex_le(key, s.last().range.end@) {
        lemma_linked_hold_from(s, 0, key);
    }
}

/// An accepted AccessList update keeps the keys the list answers for: the consumed and the
/// produced shards hold exactly the same keys, so entries can only move between shards that
/// split or merge inside the same range.
pub proof fn lemma_update_keeps_held_keys(
    input_mode: AccessMode,
    output_mode: AccessMode,
    ins: Seq<AccessListShard>,
    outs: Seq<AccessListShard>,
    key: Seq<u8>,
)
    requires
        lifecycle_of(input_mode, output_mode) == Some(AccessListLifecycle::Update),
        shards_valid_for_modes(input_mode, output_mode, ins, outs),
        ranges_valid(ins),
        ranges_valid(outs),
        key.len() == 32,
    ensures
        shards_hold(ins, key) == shards_hold(outs, key),
{
    lemma_run_holds_iff_between(ins, key);
    lemma_run_holds_iff_between(outs, key);
}

} // verus!
