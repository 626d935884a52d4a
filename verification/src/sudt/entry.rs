//! The sUDT token script: only a mint needs checking; transfers, burns and destructions pass.
use vstd::prelude::*;
use crate::chain::{Source, TxView};
use crate::config::{flag_set, CONFIG_SUPPLY_TRACKED};
use crate::sudt::error::Error;
use crate::sudt::meta::{
    amount_error_of, collect_group_amount, context_fits, current_meta_of, load_meta_type_hash_arg,
    mint_outcome, validate_mint, SudtContext,
};

verus! {

/// The outcome of the script: the arguments must be a 32-byte metadata type hash and both group
/// amounts must have been summed; more output than input is a mint; anything else passes.
pub open spec fn main_outcome(tx: TxView, ctx: SudtContext) -> Result<(), Error> {
    if tx.script_args@.len() != 32 {
        Err(Error::InvalidArgs)
    } else {
        match ctx.input_amount {
            Err(e) => Err(amount_error_of(e)),
            Ok(input_amount) => match ctx.output_amount {
                Err(e) => Err(amount_error_of(e)),
                Ok(output_amount) => if output_amount > input_amount {
                    mint_outcome(tx, tx.script_args@, ctx)
                } else {
                    Ok(())
                },
            },
        }
    }
}

/// Runs the token script.
pub fn main(tx: &TxView, ctx: &SudtContext) -> (r: Result<(), Error>)
    requires
        context_fits(*tx, *ctx),
    ensures
        r == main_outcome(*tx, *ctx),
{
    let meta_type_hash = load_meta_type_hash_arg(tx)?;
    let input_amount = collect_group_amount(ctx.input_amount)?;
    let output_amount = collect_group_amount(ctx.output_amount)?;

    if output_amount > input_amount {
        return validate_mint(tx, &meta_type_hash, ctx);
    }

    Ok(())
}

/// Transfers, burns and destructions need nothing from the metadata: once the amounts are
/// summed, a group whose output does not exceed its input passes.
pub proof fn lemma_no_increase_passes(tx: TxView, ctx: SudtContext)
    requires
        tx.script_args@.len() == 32,
        ctx.input_amount matches Ok(i) && ctx.output_amount matches Ok(o) && o <= i,
    ensures
        main_outcome(tx, ctx) == Ok::<(), Error>(()),
{
}

/// Under tracked metadata, minting needs the metadata among the inputs (where its script
/// accounts for the supply): a mint that sees the metadata only through a cell dep fails.
pub proof fn lemma_tracked_mint_needs_meta_input(tx: TxView, ctx: SudtContext)
    requires
        current_meta_of(tx, ctx, tx.script_args@) matches Ok(Some((m, source)))
            && flag_set(m.config_flags, CONFIG_SUPPLY_TRACKED) && source == Source::CellDep,
    ensures
        mint_outcome(tx, tx.script_args@, ctx) == Err::<(), Error>(Error::MetaInputMissing),
{
}

/// Under untracked metadata, a mint needs the mint authority: without one it fails.
pub proof fn lemma_untracked_mint_needs_authority(tx: TxView, ctx: SudtContext)
    requires
        current_meta_of(tx, ctx, tx.script_args@) matches Ok(Some((m, source)))
            && !flag_set(m.config_flags, CONFIG_SUPPLY_TRACKED) && m.mint_authority is None,
    ensures
        mint_outcome(tx, tx.script_args@, ctx) == Err::<(), Error>(Error::AuthorityMissing),
{
}

} // verus!
