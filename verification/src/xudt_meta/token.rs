//! The xUDT token cells bound to a metadata cell: the supply minted when metadata is created,
//! and whether any token cell moves in a transaction.
use vstd::prelude::*;
use crate::bytes::{le_at, le_u128_at};
use crate::chain::{bound_cell, bound_script, has_bound_cell, is_bound_script, CellView, CodeHashes, ScriptView, TxView};
use crate::config::{flag_set, CONFIG_SUPPLY_TRACKED};
use crate::xudt_meta::config::is_supply_tracked;
use crate::xudt_meta::error::Error;
use crate::xudt_meta::parser::ParsedXudtMeta;

verus! {

/// The amount a token cell's data holds: its first 16 bytes, little endian.
pub open spec fn amount_of(d: Seq<u8>) -> Result<nat, Error> {
    if d.len() < 16 {
        Err(Error::InvalidSupply)
    } else {
        Ok(le_at(d, 0, 16))
    }
}

/// The total amount of the bound token cells among the first `n` cells; a short amount or a
/// total past `u128::MAX` is an invalid supply.
pub open spec fn initial_upto(cells: Seq<CellView>, hash: Seq<u8>, code: Seq<u8>, n: nat) -> Result<nat, Error>
    decreases n,
{
    if n == 0 {
        Ok(0)
    } else {
        match initial_upto(cells, hash, code, (n - 1) as nat) {
            Err(e) => Err(e),
            Ok(t) => if !bound_cell(cells[n - 1], hash, code) {
                Ok(t)
            } else {
                match amount_of(cells[n - 1].data@) {
                    Err(e) => Err(e),
                    Ok(v) => if t + v > u128::MAX {
                        Err(Error::InvalidSupply)
                    } else {
                        Ok(t + v)
                    },
                }
            },
        }
    }
}

/// The outcome of creating metadata: tracked supply equals the amount minted into the bound
/// token outputs; untracked supply is zero.
pub open spec fn create_outcome(tx: TxView, flags: u8, supply: nat, hash: Seq<u8>, codes: CodeHashes) -> Result<(), Error> {
    if flag_set(flags, CONFIG_SUPPLY_TRACKED) {
        match initial_upto(tx.outputs@, hash, codes.udt@, tx.outputs@.len()) {
            Err(e) => Err(e),
            Ok(total) => if supply != total {
                Err(Error::InvalidSupply)
            } else {
                Ok(())
            },
        }
    } else if supply != 0 {
        Err(Error::InvalidSupply)
    } else {
        Ok(())
    }
}

/// Some cell among the inputs or the outputs is a token cell bound to this metadata.
pub open spec fn token_cells_present(tx: TxView, hash: Seq<u8>, code: Seq<u8>) -> bool {
    (exists|i: int| 0 <= i < tx.inputs@.len() && bound_cell(#[trigger] tx.inputs@[i], hash, code))
        || (exists|i: int| 0 <= i < tx.outputs@.len() && bound_cell(#[trigger] tx.outputs@[i], hash, code))
}

/// Checks the supply of metadata being created.
pub fn validate_create(tx: &TxView, output_meta: &ParsedXudtMeta, meta_type_hash: &[u8; 32], codes: &CodeHashes) -> (r: Result<(), Error>)
    ensures
        r == create_outcome(*tx, output_meta.config_flags, output_meta.current_supply as nat, meta_type_hash@, *codes),
{
    if is_supply_tracked(output_meta.config_flags) {
        let initial_supply = sum_initial_udt_outputs(tx, meta_type_hash, &codes.udt)?;
        if output_meta.current_supply != initial_supply {
            return Err(Error::InvalidSupply);
        }
    } else if output_meta.current_supply != 0 {
        return Err(Error::InvalidSupply);
    }
    Ok(())
}

/// A failure in the first `k` cells is the failure of every longer run.
pub proof fn lemma_initial_err_sticky(cells: Seq<CellView>, hash: Seq<u8>, code: Seq<u8>, k: nat, m: nat)
    requires
        k <= m,
        initial_upto(cells, hash, code, k) is Err,
    ensures
        initial_upto(cells, hash, code, m) == initial_upto(cells, hash, code, k),
    decreases m - k,
{
    if k < m {
        lemma_initial_err_sticky(cells, hash, code, k, (m - 1) as nat);
    }
}

/// The total amount of the token outputs bound to this metadata with the given code hash.
pub fn sum_initial_udt_outputs(tx: &TxView, meta_type_hash: &[u8; 32], udt_code_hash: &[u8; 32]) -> (r: Result<u128, Error>)
    ensures
        match r {
            Ok(v) => initial_upto(tx.outputs@, meta_type_hash@, udt_code_hash@, tx.outputs@.len()) == Ok::<nat, Error>(v as nat),
            Err(e) => initial_upto(tx.outputs@, meta_type_hash@, udt_code_hash@, tx.outputs@.len()) == Err::<nat, Error>(e),
        },
{
    let cells = &tx.outputs;
    let mut total: u128 = 0;
    let mut index: usize = 0;
    while index < cells.len()
        invariant
            index <= cells@.len(),
            cells@ == tx.outputs@,
            initial_upto(cells@, meta_type_hash@, udt_code_hash@, index as nat) == Ok::<nat, Error>(total as nat),
        decreases cells@.len() - index,
    {
        let bound = match &cells[index].type_script {
            Some(s) => is_token_script(s, meta_type_hash, udt_code_hash),
            None => false,
        };
        if bound {
            let amount = match decode_amount(cells[index].data.as_slice()) {
                Ok(a) => a,
                Err(e) => {
                    proof {
                        lemma_initial_err_sticky(cells@, meta_type_hash@, udt_code_hash@, (index + 1) as nat, cells@.len());
                    }
                    return Err(e);
                },
            };
            total = match total.checked_add(amount) {
                Some(t) => t,
                None => {
                    proof {
                        lemma_initial_err_sticky(cells@, meta_type_hash@, udt_code_hash@, (index + 1) as nat, cells@.len());
                    }
                    return Err(Error::InvalidSupply);
                },
            };
        }
        index = index + 1;
    }
    Ok(total)
}

/// Whether some input or output is an xUDT cell bound to this metadata.
pub fn has_same_token_cells(tx: &TxView, meta_type_hash: &[u8; 32], codes: &CodeHashes) -> (r: Result<bool, Error>)
    ensures
        r == Ok::<bool, Error>(token_cells_present(*tx, meta_type_hash@, codes.udt@)),
{
    if has_bound_cell(&tx.inputs, meta_type_hash, &codes.udt) {
        return Ok(true);
    }
    Ok(has_bound_cell(&tx.outputs, meta_type_hash, &codes.udt))
}

/// Whether a type script is a token script bound to this metadata with the given code hash.
pub fn is_token_script(type_script: &ScriptView, meta_type_hash: &[u8; 32], code_hash: &[u8; 32]) -> (r: bool)
    ensures
        r == bound_script(*type_script, meta_type_hash@, code_hash@),
{
    is_bound_script(type_script, meta_type_hash, code_hash)
}

/// The token amount of a cell's data: its first 16 bytes, which must be there.
pub fn decode_amount(data: &[u8]) -> (r: Result<u128, Error>)
    ensures
        match r {
            Ok(v) => amount_of(data@) == Ok::<nat, Error>(v as nat),
            Err(e) => amount_of(data@) == Err::<nat, Error>(e),
        },
{
    if data.len() < 16 {
        return Err(Error::InvalidSupply);
    }
    Ok(le_u128_at(data, 0))
}

} // verus!
