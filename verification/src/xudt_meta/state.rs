//! What a metadata transaction's cells hold, given the metadata and AccessList tables decoded
//! from them: the xUDT and AccessList cells bound to the metadata, whether the AccessList
//! ranges of a source cover the whole key domain, and the supply of created metadata.
use vstd::prelude::*;
use crate::chain::{bound_cell, has_bound_cell, CellView, CodeHashes, Source, TxView};
use crate::config::{flag_set, CONFIG_ACCESS_ENABLED, CONFIG_SUPPLY_TRACKED};
use crate::byte32::lex_le;
use crate::domain::{
    covers_full_domain, key_ranges, lemma_covering_ranges_hold_every_key, lemma_range_order_total, range_holds,
    range_order, ranges_cover, sort_ranges, KeyRange,
};
use crate::sys::ScriptError;
use crate::types::XudtMeta;
use crate::xudt_meta::config::{access_enabled, is_supply_tracked};
use crate::xudt_meta::error::Error;
use crate::xudt_meta::token::token_cells_present;

verus! {

/// The decoded ranges of the AccessList cells among the first `n` cells, in cell order;
/// `None` once one of them does not decode.
pub open spec fn bound_ranges_upto(
    cells: Seq<CellView>,
    decoded: Seq<Option<KeyRange>>,
    hash: Seq<u8>,
    code: Seq<u8>,
    n: nat,
) -> Option<Seq<KeyRange>>
    decreases n,
{
    if n == 0 {
        Some(Seq::empty())
    } else {
        match bound_ranges_upto(cells, decoded, hash, code, (n - 1) as nat) {
            None => None,
            Some(prev) => if bound_cell(cells[n - 1], hash, code) {
                match decoded[n - 1] {
                    None => None,
                    Some(range) => Some(prev.push(range)),
                }
            } else {
                Some(prev)
            },
        }
    }
}

/// Whether the AccessList ranges of a source, sorted by start then end, cover the whole key
/// domain; a shard that does not decode means the AccessList is missing.
pub open spec fn full_domain_of(cells: Seq<CellView>, decoded: Seq<Option<KeyRange>>, hash: Seq<u8>, code: Seq<u8>) -> Result<bool, Error> {
    match bound_ranges_upto(cells, decoded, hash, code, cells.len()) {
        None => Err(Error::AccessListRequired),
        Some(ranges) => Ok(ranges_cover(key_ranges(ranges.sort_by(range_order())))),
    }
}

/// `range` is decoded from an AccessList cell among the first `n` cells.
spec fn decoded_from_cell(
    cells: Seq<CellView>,
    decoded: Seq<Option<KeyRange>>,
    hash: Seq<u8>,
    code: Seq<u8>,
    n: int,
    range: KeyRange,
) -> bool {
    exists|i: int| 0 <= i < n && #[trigger] bound_cell(cells[i], hash, code) && decoded[i] == Some(range)
}

/// Each range the search collects comes from an AccessList cell among the first `n` cells.
proof fn lemma_bound_ranges_from_cells(
    cells: Seq<CellView>,
    decoded: Seq<Option<KeyRange>>,
    hash: Seq<u8>,
    code: Seq<u8>,
    n: nat,
)
    requires
        bound_ranges_upto(cells, decoded, hash, code, n) is Some,
    ensures
        forall|j: int| 0 <= j < bound_ranges_upto(cells, decoded, hash, code, n).unwrap().len()
            ==> decoded_from_cell(cells, decoded, hash, code, n as int, #[trigger] bound_ranges_upto(cells, decoded, hash, code, n).unwrap()[j]),
    decreases n,
{
    if n > 0 {
        lemma_bound_ranges_from_cells(cells, decoded, hash, code, (n - 1) as nat);
        let prev = bound_ranges_upto(cells, decoded, hash, code, (n - 1) as nat).unwrap();
        let cur = bound_ranges_upto(cells, decoded, hash, code, n).unwrap();
        assert forall|j: int| 0 <= j < cur.len() implies decoded_from_cell(cells, decoded, hash, code, n as int, #[trigger] cur[j]) by {
            if j < prev.len() {
                assert(cur[j] == prev[j]);
                assert(decoded_from_cell(cells, decoded, hash, code, n - 1, prev[j]));
                let i = choose|i: int| 0 <= i < n - 1 && #[trigger] bound_cell(cells[i], hash, code) && decoded[i] == Some(prev[j]);
                assert(bound_cell(cells[i], hash, code));
            } else {
                assert(bound_cell(cells[n - 1], hash, code));
            }
        }
    }
}

/// AccessList ranges found to cover the whole key domain leave no key out: every 32-byte key
/// lies in the range decoded from one of the source's AccessList cells.
pub proof fn lemma_full_domain_of_holds_every_key(
    cells: Seq<CellView>,
    decoded: Seq<Option<KeyRange>>,
    hash: Seq<u8>,
    code: Seq<u8>,
    key: Seq<u8>,
)
    requires
        full_domain_of(cells, decoded, hash, code) == Ok::<bool, Error>(true),
        key.len() == 32,
    ensures
        exists|i: int| 0 <= i < cells.len() && #[trigger] bound_cell(cells[i], hash, code)
            && (decoded[i] matches Some(r) && lex_le(r.0@, key) && lex_le(key, r.1@)),
{
    let ranges = bound_ranges_upto(cells, decoded, hash, code, cells.len()).unwrap();
    let sorted = ranges.sort_by(range_order());
    let r = key_ranges(sorted);
    assert forall|i: int| 0 <= i < r.len() implies (#[trigger] r[i]).0.len() == 32 && r[i].1.len() == 32 by {
        assert(r[i] == (sorted[i].0@, sorted[i].1@));
    }
    lemma_covering_ranges_hold_every_key(r, key);
    let j = choose|j: int| 0 <= j < r.len() && range_holds(r, j, key);
    assert(r[j] == (sorted[j].0@, sorted[j].1@));
    lemma_range_order_total();
    ranges.lemma_sort_by_ensures(range_order());
    assert(sorted.contains(sorted[j]));
    assert(ranges.contains(sorted[j]));
    let m = choose|m: int| 0 <= m < ranges.len() && ranges[m] == sorted[j];
    lemma_bound_ranges_from_cells(cells, decoded, hash, code, cells.len());
    assert(decoded_from_cell(cells, decoded, hash, code, cells.len() as int, ranges[m]));
    let i = choose|i: int| 0 <= i < cells.len() && #[trigger] bound_cell(cells[i], hash, code) && decoded[i] == Some(ranges[m]);
    assert(decoded[i] == Some(sorted[j]));
}

/// The error a failed token sum is reported as on creation.
pub open spec fn create_supply_error(e: ScriptError) -> Error {
    match e {
        ScriptError::AmountEncoding | ScriptError::AmountOverflow => Error::InvalidSupply,
        _ => Error::SyscallUnknown,
    }
}

/// The outcome of creating metadata, given the sum of the bound xUDT outputs: tracked supply
/// equals that sum, untracked supply is zero, and access control needs AccessList outputs that
/// cover the whole key domain.
pub open spec fn state_create_outcome(
    m: XudtMeta,
    initial_supply: Result<u128, ScriptError>,
    output_full_domain: Result<bool, Error>,
) -> Result<(), Error> {
    let supply = if flag_set(m.config_flags, CONFIG_SUPPLY_TRACKED) {
        match initial_supply {
            Err(e) => Err(create_supply_error(e)),
            Ok(total) => if m.current_supply != total {
                Err(Error::InvalidSupply)
            } else {
                Ok(())
            },
        }
    } else if m.current_supply != 0 {
        Err(Error::InvalidSupply)
    } else {
        Ok(())
    };
    if supply is Err {
        supply
    } else if flag_set(m.config_flags, CONFIG_ACCESS_ENABLED) {
        match output_full_domain {
            Err(e) => Err(e),
            Ok(false) => Err(Error::AccessListRequired),
            Ok(true) => Ok(()),
        }
    } else {
        Ok(())
    }
}

/// Whether the inputs' AccessList ranges cover the whole key domain; `decoded[i]` is the
/// range decoded from input `i`'s data, `None` where it does not decode.
pub fn has_full_domain_access_list_inputs(
    tx: &TxView,
    meta_type_hash: &[u8; 32],
    codes: &CodeHashes,
    decoded: &Vec<Option<KeyRange>>,
) -> (r: Result<bool, Error>)
    requires
        decoded@.len() == tx.inputs@.len(),
    ensures
        r == full_domain_of(tx.inputs@, decoded@, meta_type_hash@, codes.access_list@),
{
    has_full_domain_access_list_cells(tx, Source::Input, meta_type_hash, codes, decoded)
}

/// Whether the outputs' AccessList ranges cover the whole key domain; `decoded[i]` is the
/// range decoded from output `i`'s data, `None` where it does not decode.
pub fn has_full_domain_access_list_outputs(
    tx: &TxView,
    meta_type_hash: &[u8; 32],
    codes: &CodeHashes,
    decoded: &Vec<Option<KeyRange>>,
) -> (r: Result<bool, Error>)
    requires
        decoded@.len() == tx.outputs@.len(),
    ensures
        r == full_domain_of(tx.outputs@, decoded@, meta_type_hash@, codes.access_list@),
{
    has_full_domain_access_list_cells(tx, Source::Output, meta_type_hash, codes, decoded)
}

/// Whether some output is an AccessList cell bound to this metadata.
pub fn has_bound_access_list_outputs(tx: &TxView, meta_type_hash: &[u8; 32], codes: &CodeHashes) -> (r: Result<bool, Error>)
    ensures
        r == Ok::<bool, Error>(exists|i: int| 0 <= i < tx.outputs@.len() && bound_cell(#[trigger] tx.outputs@[i], meta_type_hash@, codes.access_list@)),
{
    Ok(has_bound_cell(&tx.outputs, meta_type_hash, &codes.access_list))
}

/// Once a range fails to decode, the ranges of more cells fail too.
proof fn lemma_ranges_fail_sticky(cells: Seq<CellView>, decoded: Seq<Option<KeyRange>>, hash: Seq<u8>, code: Seq<u8>, k: nat, m: nat)
    requires
        k <= m,
        bound_ranges_upto(cells, decoded, hash, code, k) is None,
    ensures
        bound_ranges_upto(cells, decoded, hash, code, m) is None,
    decreases m - k,
{
    if k < m {
        lemma_ranges_fail_sticky(cells, decoded, hash, code, k, (m - 1) as nat);
    }
}

/// Collects the decoded ranges of a source's AccessList cells, sorts them, and checks that they
/// cover the whole key domain.
fn has_full_domain_access_list_cells(
    tx: &TxView,
    source: Source,
    meta_type_hash: &[u8; 32],
    codes: &CodeHashes,
    decoded: &Vec<Option<KeyRange>>,
) -> (r: Result<bool, Error>)
    requires
        decoded@.len() == tx.cells_of(source).len(),
    ensures
        r == full_domain_of(tx.cells_of(source), decoded@, meta_type_hash@, codes.access_list@),
{
    let cells = tx.cells(source);
    let mut ranges: Vec<KeyRange> = Vec::new();
    let mut index: usize = 0;
    while index < cells.len()
        invariant
            index <= cells@.len(),
            cells@ == tx.cells_of(source),
            decoded@.len() == cells@.len(),
            bound_ranges_upto(cells@, decoded@, meta_type_hash@, codes.access_list@, index as nat) == Some(ranges@),
        decreases cells@.len() - index,
    {
        let is_list = match &cells[index].type_script {
            Some(s) => crate::chain::is_bound_script(s, meta_type_hash, &codes.access_list),
            None => false,
        };
        if is_list {
            match decoded[index] {
                Some(range) => {
                    ranges.push(range);
                },
                None => {
                    proof {
                        lemma_ranges_fail_sticky(cells@, decoded@, meta_type_hash@, codes.access_list@, (index + 1) as nat, cells@.len());
                    }
                    return Err(Error::AccessListRequired);
                },
            }
        }
        index = index + 1;
    }
    let sorted = sort_ranges(ranges);
    Ok(covers_full_domain(sorted.as_slice()))
}

/// Checks metadata being created: its supply against the sum of the bound xUDT outputs
/// (`initial_supply`, as the token sum reported it), and, with access control on, that the
/// outputs' AccessList ranges (`decoded_outputs[i]` decoded from output `i`) cover the whole
/// key domain.
pub fn validate_create(
    tx: &TxView,
    output_meta: &XudtMeta,
    meta_type_hash: &[u8; 32],
    codes: &CodeHashes,
    initial_supply: Result<u128, ScriptError>,
    decoded_outputs: &Vec<Option<KeyRange>>,
) -> (r: Result<(), Error>)
    requires
        decoded_outputs@.len() == tx.outputs@.len(),
    ensures
        r == state_create_outcome(
            *output_meta,
            initial_supply,
            full_domain_of(tx.outputs@, decoded_outputs@, meta_type_hash@, codes.access_list@),
        ),
{
    if is_supply_tracked(output_meta.config_flags) {
        let initial = match initial_supply {
            Ok(v) => v,
            Err(e) => return Err(map_supply_error(e)),
        };
        if output_meta.current_supply != initial {
            return Err(Error::InvalidSupply);
        }
    } else if output_meta.current_supply != 0 {
        return Err(Error::InvalidSupply);
    }

    if access_enabled(output_meta.config_flags) && !has_full_domain_access_list_outputs(tx, meta_type_hash, codes, decoded_outputs)? {
        return Err(Error::AccessListRequired);
    }
    Ok(())
}

/// Whether some input or output is an xUDT cell bound to this metadata.
pub fn has_bound_xudt_cells(tx: &TxView, meta_type_hash: &[u8; 32], codes: &CodeHashes) -> (r: Result<bool, Error>)
    ensures
        r == Ok::<bool, Error>(token_cells_present(*tx, meta_type_hash@, codes.udt@)),
{
    if has_bound_cell(&tx.inputs, meta_type_hash, &codes.udt) {
        return Ok(true);
    }
    Ok(has_bound_cell(&tx.outputs, meta_type_hash, &codes.udt))
}

/// Whether some output is an xUDT cell bound to this metadata.
pub fn has_bound_xudt_outputs(tx: &TxView, meta_type_hash: &[u8; 32], codes: &CodeHashes) -> (r: Result<bool, Error>)
    ensures
        r == Ok::<bool, Error>(exists|i: int| 0 <= i < tx.outputs@.len() && bound_cell(#[trigger] tx.outputs@[i], meta_type_hash@, codes.udt@)),
{
    Ok(has_bound_cell(&tx.outputs, meta_type_hash, &codes.udt))
}

/// The error a failed token sum is reported as on creation.
pub fn map_supply_error(error: ScriptError) -> (r: Error)
    ensures
        r == create_supply_error(error),
{
    match error {
        ScriptError::AmountEncoding | ScriptError::AmountOverflow => Error::InvalidSupply,
        ScriptError::SyscallUnknown => Error::SyscallUnknown,
        _ => Error::SyscallUnknown,
    }
}

} // verus!
