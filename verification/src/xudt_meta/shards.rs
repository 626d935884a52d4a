//! The AccessList shards a metadata transaction produces: each shard's data, their order, and
//! whether they cover the whole key domain.
use vstd::prelude::*;
use crate::byte32::{byte32_lt, lemma_lex_lt_trans, lemma_lex_total, lex_lt};
use crate::bytes::le_at;
use crate::chain::{bound_cell, bound_script, is_bound_script, CellView, CodeHashes, ScriptView, TxView};
use crate::domain::{covers_full_domain, key_ranges, ranges_cover, KeyRange};
use crate::molecule::{declared_fields, flexible_table, header_offsets, lemma_offsets_ordered};
use crate::xudt_meta::error::Error;
use crate::xudt_meta::parser::{byte32_field, read_u32, table_offsets};

verus! {

/// Number of fields of an AccessList shard table.
pub const ACCESS_LIST_SHARD_FIELDS: usize = 2;

/// Most entries a shard may hold.
pub const MAX_ACCESSLIST_ENTRIES: usize = 4096;

/// A parsed AccessList shard: the range of keys it covers, both ends included.
pub struct AccessListShard {
    pub start: [u8; 32],
    pub end: [u8; 32],
}

/// A range is nibble aligned: its start ends in a zero nibble, its end in a full one.
pub open spec fn nibble_aligned(start: Seq<u8>, end: Seq<u8>) -> bool {
    start[31] & 0x0f == 0 && end[31] & 0x0f == 0x0f
}

/// Entry `i` of a vector of 32-byte entries.
pub open spec fn entry_at(d: Seq<u8>, i: int) -> Seq<u8> {
    d.subrange(4 + 32 * i, 4 + 32 * i + 32)
}

/// A vector of 32-byte entries: a count of at most 4096, exactly the bytes they take, and the
/// entries in strictly increasing order.
pub open spec fn byte32_vec_ok(d: Seq<u8>) -> bool {
    &&& d.len() >= 4
    &&& le_at(d, 0, 4) <= 4096
    &&& d.len() == 4 + 32 * le_at(d, 0, 4)
    &&& forall|i: int| 1 <= i < le_at(d, 0, 4) ==> lex_lt(entry_at(d, i - 1), #[trigger] entry_at(d, i))
}

/// The range an AccessList shard's data holds: a 2-field table whose range field takes exactly
/// 64 bytes, with the start not after the end, nibble aligned, and a valid entry vector.
pub open spec fn shard_range_of(d: Seq<u8>) -> Option<(Seq<u8>, Seq<u8>)> {
    let o = header_offsets(d, 2);
    if !flexible_table(d, 2, false) || o[1] != o[0] + 64 {
        None
    } else {
        let start = d.subrange(o[0], o[0] + 32);
        let end = d.subrange(o[0] + 32, o[1]);
        if lex_lt(end, start) || !nibble_aligned(start, end) || !byte32_vec_ok(d.subrange(o[1], o[2])) {
            None
        } else {
            Some((start, end))
        }
    }
}

/// The shards the AccessList cells among the first `n` outputs hold, in order, each starting
/// after the previous one ends; `None` once one does not parse or is out of order.
pub open spec fn legal_shards_upto(outs: Seq<CellView>, hash: Seq<u8>, code: Seq<u8>, n: nat) -> Option<Seq<(Seq<u8>, Seq<u8>)>>
    decreases n,
{
    if n == 0 {
        Some(Seq::empty())
    } else {
        match legal_shards_upto(outs, hash, code, (n - 1) as nat) {
            None => None,
            Some(prev) => if bound_cell(outs[n - 1], hash, code) {
                match shard_range_of(outs[n - 1].data@) {
                    None => None,
                    Some(s) => if prev.len() > 0 && !lex_lt(prev.last().1, s.0) {
                        None
                    } else {
                        Some(prev.push(s))
                    },
                }
            } else {
                Some(prev)
            },
        }
    }
}

/// The shards of all the outputs' AccessList cells.
pub open spec fn legal_shards(tx: TxView, hash: Seq<u8>, codes: CodeHashes) -> Option<Seq<(Seq<u8>, Seq<u8>)>> {
    legal_shards_upto(tx.outputs@, hash, codes.access_list@, tx.outputs@.len())
}

/// Once a shard fails, the shards of more outputs fail too.
pub proof fn lemma_shards_fail_sticky(outs: Seq<CellView>, hash: Seq<u8>, code: Seq<u8>, k: nat, m: nat)
    requires
        k <= m,
        legal_shards_upto(outs, hash, code, k) is None,
    ensures
        legal_shards_upto(outs, hash, code, m) is None,
    decreases m - k,
{
    if k < m {
        lemma_shards_fail_sticky(outs, hash, code, k, (m - 1) as nat);
    }
}

/// Keys `a < b`, `b <= c`, `c < d` give `a < d`.
proof fn lemma_lex_chain(a: Seq<u8>, b: Seq<u8>, c: Seq<u8>, d: Seq<u8>)
    requires
        a.len() == 32 && b.len() == 32 && c.len() == 32 && d.len() == 32,
        lex_lt(a, b),
        !lex_lt(c, b),
        lex_lt(c, d),
    ensures
        lex_lt(a, d),
{
    if b == c {
        lemma_lex_lt_trans(a, b, d);
    } else {
        lemma_lex_total(c, b);
        lemma_lex_lt_trans(a, b, c);
        lemma_lex_lt_trans(a, c, d);
    }
}

/// Legal shards hold 32-byte keys, each starts no later than it ends, and each starts after
/// every earlier shard ends.
pub proof fn lemma_legal_shards_ordered(outs: Seq<CellView>, hash: Seq<u8>, code: Seq<u8>, n: nat)
    requires
        legal_shards_upto(outs, hash, code, n) is Some,
    ensures
        ({
            let s = legal_shards_upto(outs, hash, code, n)->0;
            &&& forall|i: int| 0 <= i < s.len() ==> (#[trigger] s[i]).0.len() == 32 && s[i].1.len() == 32
            &&& forall|i: int| 0 <= i < s.len() ==> !lex_lt((#[trigger] s[i]).1, s[i].0)
            &&& forall|i: int, j: int| 0 <= i < j < s.len() ==> lex_lt((#[trigger] s[i]).1, (#[trigger] s[j]).0)
        }),
    decreases n,
{
    if n > 0 {
        lemma_legal_shards_ordered(outs, hash, code, (n - 1) as nat);
        let prev = legal_shards_upto(outs, hash, code, (n - 1) as nat)->0;
        let s = legal_shards_upto(outs, hash, code, n)->0;
        if s.len() > prev.len() {
            let k = prev.len() as int;
            let d = outs[n - 1].data@;
            let o = header_offsets(d, 2);
            assert(flexible_table(d, 2, false) && o[1] == o[0] + 64);
            assert(declared_fields(d) == 2);
            lemma_offsets_ordered(d, 2);
            assert(o[0] <= o[1] && o[1] <= d.len());
            assert(s == prev.push(s[k]));
            assert(s[k].0.len() == 32 && s[k].1.len() == 32);
            assert forall|i: int| 0 <= i < s.len() implies (#[trigger] s[i]).0.len() == 32 && s[i].1.len() == 32 by {
                if i < k {
                    assert(prev[i] == s[i]);
                }
            }
            assert forall|i: int| 0 <= i < s.len() implies !lex_lt((#[trigger] s[i]).1, s[i].0) by {
                if i < k {
                    assert(prev[i] == s[i]);
                }
            }
            assert forall|i: int, j: int| 0 <= i < j < s.len() implies lex_lt((#[trigger] s[i]).1, (#[trigger] s[j]).0) by {
                if j < k {
                    assert(prev[i] == s[i] && prev[j] == s[j]);
                } else if i == k - 1 {
                    assert(prev.last() == s[i]);
                } else {
                    assert(prev[i] == s[i]);
                    assert(prev[k - 1] == s[k - 1]);
                    assert(prev.last() == s[k - 1]);
                    lemma_lex_chain(s[i].1, s[k - 1].0, s[k - 1].1, s[k].0);
                }
            }
        } else {
            assert(s == prev);
        }
    }
}

/// Whether a type script is the AccessList script bound to this metadata.
pub fn is_access_list_script(type_script: &ScriptView, meta_type_hash: &[u8; 32], codes: &CodeHashes) -> (r: bool)
    ensures
        r == bound_script(*type_script, meta_type_hash@, codes.access_list@),
{
    is_bound_script(type_script, meta_type_hash, &codes.access_list)
}

/// Whether the outputs hold at least one AccessList shard for this metadata; a shard that does
/// not parse, or that does not start after the previous one ends, is invalid metadata.
pub fn has_legal_access_list_shard(tx: &TxView, meta_type_hash: &[u8; 32], codes: &CodeHashes) -> (r: Result<bool, Error>)
    ensures
        match r {
            Ok(b) => legal_shards(*tx, meta_type_hash@, *codes) matches Some(s) && b == (s.len() > 0),
            Err(e) => legal_shards(*tx, meta_type_hash@, *codes) is None && e == Error::InvalidMetaData,
        },
{
    let shards = collect_legal_access_list_shards(tx, meta_type_hash, codes)?;
    Ok(shards.len() > 0)
}

/// Whether the outputs' AccessList shards for this metadata cover the whole key domain: the
/// first starts at the least key, each next one right after the previous one ends, and one ends
/// at the greatest key; a shard that does not parse or is out of order is invalid metadata.
pub fn has_full_domain_access_list_shards(tx: &TxView, meta_type_hash: &[u8; 32], codes: &CodeHashes) -> (r: Result<bool, Error>)
    ensures
        match r {
            Ok(b) => legal_shards(*tx, meta_type_hash@, *codes) matches Some(s) && b == ranges_cover(s),
            Err(e) => legal_shards(*tx, meta_type_hash@, *codes) is None && e == Error::InvalidMetaData,
        },
{
    let shards = collect_legal_access_list_shards(tx, meta_type_hash, codes)?;
    Ok(covers_full_domain(shards.as_slice()))
}

/// The ranges of the outputs' AccessList shards, in output order.
pub fn collect_legal_access_list_shards(tx: &TxView, meta_type_hash: &[u8; 32], codes: &CodeHashes) -> (r: Result<Vec<KeyRange>, Error>)
    ensures
        match r {
            Ok(v) => legal_shards(*tx, meta_type_hash@, *codes) == Some(key_ranges(v@)),
            Err(e) => legal_shards(*tx, meta_type_hash@, *codes) is None && e == Error::InvalidMetaData,
        },
{
    let cells = &tx.outputs;
    let mut shards: Vec<KeyRange> = Vec::new();
    let mut index: usize = 0;
    assert(key_ranges(shards@) =~= Seq::<(Seq<u8>, Seq<u8>)>::empty());
    while index < cells.len()
        invariant
            index <= cells@.len(),
            cells@ == tx.outputs@,
            legal_shards_upto(cells@, meta_type_hash@, codes.access_list@, index as nat) == Some(key_ranges(shards@)),
        decreases cells@.len() - index,
    {
        let is_list = match &cells[index].type_script {
            Some(s) => is_access_list_script(s, meta_type_hash, codes),
            None => false,
        };
        if is_list {
            let shard = match parse_access_list_shard(cells[index].data.as_slice()) {
                Ok(s) => s,
                Err(e) => {
                    proof {
                        lemma_shards_fail_sticky(cells@, meta_type_hash@, codes.access_list@, (index + 1) as nat, cells@.len());
                    }
                    return Err(e);
                },
            };
            match validate_shard_order(shards.as_slice(), &shard) {
                Ok(()) => {},
                Err(e) => {
                    proof {
                        lemma_shards_fail_sticky(cells@, meta_type_hash@, codes.access_list@, (index + 1) as nat, cells@.len());
                    }
                    return Err(e);
                },
            }
            let ghost before = shards@;
            shards.push((shard.start, shard.end));
            assert(key_ranges(shards@) =~= key_ranges(before).push((shard.start@, shard.end@)));
        }
        index = index + 1;
    }
    Ok(shards)
}

/// A shard must start after the previous shard ends.
pub fn validate_shard_order(previous_shards: &[KeyRange], shard: &AccessListShard) -> (r: Result<(), Error>)
    ensures
        r is Ok <==> !(previous_shards@.len() > 0 && !lex_lt(key_ranges(previous_shards@).last().1, shard.start@)),
        r matches Err(e) ==> e == Error::InvalidMetaData,
{
    let n = previous_shards.len();
    if n > 0 {
        let previous = &previous_shards[n - 1];
        assert(key_ranges(previous_shards@).last() == (previous.0@, previous.1@));
        if !byte32_lt(&previous.1, &shard.start) {
            return Err(Error::InvalidMetaData);
        }
    }
    Ok(())
}

/// Parses an AccessList shard and checks its range and entries.
pub fn parse_access_list_shard(data: &[u8]) -> (r: Result<AccessListShard, Error>)
    ensures
        match r {
            Ok(s) => shard_range_of(data@) == Some((s.start@, s.end@)),
            Err(e) => shard_range_of(data@) is None && e == Error::InvalidMetaData,
        },
{
    let offsets = table_offsets(data, ACCESS_LIST_SHARD_FIELDS, false)?;
    proof {
        assert(declared_fields(data@) == 2);
        assert forall|k: int| 0 <= k <= 2 implies offsets@[k] as int == #[trigger] header_offsets(data@, 2)[k] by {
            assert(offsets@[k] as int == header_offsets(data@, declared_fields(data@) as nat)[k]);
        }
        lemma_offsets_ordered(data@, 2);
        let o = header_offsets(data@, 2);
        assert(o[0] <= o[1] && o[1] <= o[2] && o[2] <= data@.len());
    }
    if offsets[1] < offsets[0] || offsets[1] - offsets[0] != 64 {
        return Err(Error::InvalidMetaData);
    }
    let start = byte32_field(data, offsets[0], offsets[0] + 32)?;
    let end = byte32_field(data, offsets[0] + 32, offsets[1])?;
    if byte32_lt(&end, &start) || !is_nibble_aligned_range(&start, &end) {
        return Err(Error::InvalidMetaData);
    }
    let entries = vstd::slice::slice_subrange(data, offsets[1], offsets[2]);
    parse_byte32_vec(entries)?;
    Ok(AccessListShard { start, end })
}

/// Parses a vector of 32-byte entries: at most 4096 of them, exactly filling the data, each
/// strictly after the one before.
pub fn parse_byte32_vec(data: &[u8]) -> (r: Result<Vec<[u8; 32]>, Error>)
    ensures
        r is Ok <==> byte32_vec_ok(data@),
        r matches Ok(v) ==> v@.len() == le_at(data@, 0, 4) && forall|i: int| 0 <= i < v@.len() ==> #[trigger] v@[i]@ == entry_at(data@, i),
        r matches Err(e) ==> e == Error::InvalidMetaData,
{
    if data.len() < 4 {
        return Err(Error::InvalidMetaData);
    }
    let count = read_u32(data, 0)? as usize;
    if count > MAX_ACCESSLIST_ENTRIES || data.len() != 4 + count * 32 {
        return Err(Error::InvalidMetaData);
    }
    let mut entries: Vec<[u8; 32]> = Vec::new();
    let mut index: usize = 0;
    while index < count
        invariant
            count == le_at(data@, 0, 4),
            count <= 4096,
            data@.len() == 4 + 32 * count,
            index <= count,
            entries@.len() == index,
            forall|i: int| 0 <= i < index ==> #[trigger] entries@[i]@ == entry_at(data@, i),
            forall|i: int| 1 <= i < index ==> lex_lt(entry_at(data@, i - 1), #[trigger] entry_at(data@, i)),
        decreases count - index,
    {
        assert(4 + index * 32 + 32 <= 4 + 32 * count) by (nonlinear_arith)
            requires
                index < count,
        ;
        let start = 4 + index * 32;
        let entry = byte32_field(data, start, start + 32)?;
        if index > 0 {
            if !byte32_lt(&entries[index - 1], &entry) {
                assert(!lex_lt(entry_at(data@, index - 1), entry_at(data@, index as int)));
                return Err(Error::InvalidMetaData);
            }
        }
        entries.push(entry);
        index = index + 1;
    }
    Ok(entries)
}

/// The start ends in a zero nibble and the end in a full one.
pub fn is_nibble_aligned_range(start: &[u8; 32], end: &[u8; 32]) -> (r: bool)
    ensures
        r == nibble_aligned(start@, end@),
{
    start[31] & 0x0f == 0 && end[31] & 0x0f == 0x0f
}

} // verus!
