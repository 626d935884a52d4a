//! Enhanced sUDT entry: classify the token movement and validate it.
use vstd::prelude::*;
use crate::chain::{Source, TxView};
use crate::enhanced_sudt::error::Error;
use crate::enhanced_sudt::meta::{
    amount_upto, burn_outcome, collect_group_amount, lemma_burn_needs_mint_authority, lemma_mint_needs_mint_authority,
    load_meta_type_hash_arg, meta_in, mint_outcome, named_cell_present, validate_burn_or_destruction, validate_mint,
    visible_meta,
};

verus! {

/// The outcome of the script on a transaction: equal group amounts are a transfer, a larger
/// output is a mint of the difference, a smaller output a burn or destruction of it.
pub open spec fn run_outcome(tx: TxView) -> Result<(), Error> {
    if tx.script_args@.len() != 32 {
        Err(Error::InvalidArgs)
    } else {
        match amount_upto(tx.group_inputs@, tx.group_inputs@.len()) {
            Err(e) => Err(e),
            Ok(input) => match amount_upto(tx.group_outputs@, tx.group_outputs@.len()) {
                Err(e) => Err(e),
                Ok(output) => if input == output {
                    Ok(())
                } else if output > input {
                    mint_outcome(tx, tx.script_args@, (output - input) as nat)
                } else {
                    burn_outcome(tx, tx.script_args@, (input - output) as nat)
                },
            },
        }
    }
}

/// Validates the transaction.
pub fn run(tx: &TxView) -> (r: Result<(), Error>)
    ensures
        r == run_outcome(*tx),
{
    let meta_type_hash = load_meta_type_hash_arg(tx)?;
    let input_amount = collect_group_amount(tx, Source::GroupInput)?;
    let output_amount = collect_group_amount(tx, Source::GroupOutput)?;

    if input_amount == output_amount {
        return Ok(());
    }

    if output_amount > input_amount {
        let delta = match output_amount.checked_sub(input_amount) {
            Some(d) => d,
            None => return Err(Error::AmountOverflow),
        };
        return validate_mint(tx, &meta_type_hash, delta);
    }

    let delta = match input_amount.checked_sub(output_amount) {
        Some(d) => d,
        None => return Err(Error::AmountOverflow),
    };
    validate_burn_or_destruction(tx, &meta_type_hash, delta)
}

/// The script's exit code: `0` when the transaction is valid, the error's code otherwise.
pub fn program_entry(tx: &TxView) -> (r: i8)
    ensures
        match run_outcome(*tx) {
            Ok(()) => r == 0,
            Err(e) => r == e.code_of(),
        },
{
    match run(tx) {
        Ok(()) => 0,
        Err(error) => error.code(),
    }
}

/// An accepted transaction that lowers the group's token amount while the metadata is among
/// the inputs, or that raises it under metadata the script sees, has that metadata's mint
/// authority present and the cell it names in the transaction.
pub proof fn lemma_supply_changes_need_mint_authority(tx: TxView)
    requires
        run_outcome(tx) is Ok,
        amount_upto(tx.group_inputs@, tx.group_inputs@.len()) matches Ok(i)
            && amount_upto(tx.group_outputs@, tx.group_outputs@.len()) matches Ok(o) && i != o,
    ensures
        amount_upto(tx.group_inputs@, tx.group_inputs@.len())->Ok_0 > amount_upto(tx.group_outputs@, tx.group_outputs@.len())->Ok_0
            && (meta_in(tx.inputs@, tx.script_args@) matches Ok(Some(_)))
            ==> (meta_in(tx.inputs@, tx.script_args@) matches Ok(Some(m)) && m.mint_authority matches Some(a)
                && named_cell_present(tx, a)),
        amount_upto(tx.group_inputs@, tx.group_inputs@.len())->Ok_0 < amount_upto(tx.group_outputs@, tx.group_outputs@.len())->Ok_0
            && (visible_meta(tx, tx.script_args@) matches Ok(Some(_)))
            ==> (visible_meta(tx, tx.script_args@) matches Ok(Some(v)) && v.mint_authority matches Some(a)
                && named_cell_present(tx, a)),
{
    let i = amount_upto(tx.group_inputs@, tx.group_inputs@.len())->Ok_0;
    let o = amount_upto(tx.group_outputs@, tx.group_outputs@.len())->Ok_0;
    if i > o && meta_in(tx.inputs@, tx.script_args@) is Ok && meta_in(tx.inputs@, tx.script_args@)->Ok_0 is Some {
        lemma_burn_needs_mint_authority(tx, tx.script_args@, (i - o) as nat);
    }
    if i < o && visible_meta(tx, tx.script_args@) is Ok && visible_meta(tx, tx.script_args@)->Ok_0 is Some {
        lemma_mint_needs_mint_authority(tx, tx.script_args@, (o - i) as nat);
    }
}

} // verus!
