//! The xUDT token script: the group's token amounts decide the flow, and the flow is checked
//! against the metadata that governs it.
use vstd::prelude::*;
use crate::chain::{Source, TxView};
use crate::config::{flag_set, CONFIG_PAUSED, CONFIG_SUPPLY_TRACKED};
use crate::xudt::error::Error;
use crate::xudt::meta::{amount_upto, collect_group_amount, current_meta_of, find_current_meta, load_meta_type_hash_arg, meta_in};
use crate::xudt::validation::{
    context_fits, mint_outcome, negative_delta_outcome, require_initial_mint_output_meta,
    transfer_outcome, validate_mint, validate_negative_delta, validate_transfer, TokenContext,
};

verus! {

/// The outcome of the script once the metadata type hash and the group's input and output
/// amounts are known: equal amounts are a transfer under the visible metadata; more output is a
/// mint under it, or the first mint when the metadata is being created; less output is a burn
/// or a destruction.
pub open spec fn flow_outcome(tx: TxView, hash: Seq<u8>, input_amount: nat, output_amount: nat, ctx: TokenContext) -> Result<(), Error> {
    if input_amount == output_amount {
        match current_meta_of(tx, ctx.dep_metas@, ctx.input_metas@, hash) {
            Err(e) => Err(e),
            Ok(None) => Err(Error::MetaMissing),
            Ok(Some((m, _))) => transfer_outcome(tx, m, ctx),
        }
    } else if output_amount > input_amount {
        match current_meta_of(tx, ctx.dep_metas@, ctx.input_metas@, hash) {
            Err(e) => Err(e),
            Ok(Some((m, source))) => mint_outcome(tx, m, source, ctx),
            Ok(None) => match meta_in(tx.outputs@, ctx.output_metas@, hash) {
                Err(e) => Err(e),
                Ok(None) => Err(Error::MetaMissing),
                Ok(Some(_)) => Ok(()),
            },
        }
    } else {
        negative_delta_outcome(tx, hash, output_amount as u128, ctx)
    }
}

/// The outcome of the script: the arguments must be a 32-byte metadata type hash, and both
/// group amounts must decode and not overflow.
pub open spec fn main_outcome(tx: TxView, ctx: TokenContext) -> Result<(), Error> {
    if tx.script_args@.len() != 32 {
        Err(Error::InvalidArgs)
    } else {
        match amount_upto(tx.group_inputs@, tx.group_inputs@.len()) {
            Err(e) => Err(e),
            Ok(input_amount) => match amount_upto(tx.group_outputs@, tx.group_outputs@.len()) {
                Err(e) => Err(e),
                Ok(output_amount) => flow_outcome(tx, tx.script_args@, input_amount, output_amount, ctx),
            },
        }
    }
}

/// Runs the token script.
pub fn main(tx: &TxView, ctx: &TokenContext) -> (r: Result<(), Error>)
    requires
        context_fits(*tx, *ctx),
    ensures
        r == main_outcome(*tx, *ctx),
{
    let meta_type_hash = load_meta_type_hash_arg(tx)?;
    let input_amount = collect_group_amount(tx, Source::GroupInput)?;
    let output_amount = collect_group_amount(tx, Source::GroupOutput)?;

    if input_amount == output_amount {
        match find_current_meta(tx, &meta_type_hash, &ctx.dep_metas, &ctx.input_metas)? {
            Some(current_meta) => validate_transfer(tx, &current_meta.meta, ctx),
            None => Err(Error::MetaMissing),
        }
    } else if output_amount > input_amount {
        match find_current_meta(tx, &meta_type_hash, &ctx.dep_metas, &ctx.input_metas)? {
            Some(current_meta) => validate_mint(tx, &current_meta, ctx),
            None => require_initial_mint_output_meta(tx, &meta_type_hash, ctx),
        }
    } else {
        validate_negative_delta(tx, &meta_type_hash, output_amount, ctx)
    }
}

/// Paused metadata refuses transfers: with equal group amounts under paused governing metadata,
/// the script fails.
pub proof fn lemma_paused_refuses_transfer(tx: TxView, hash: Seq<u8>, amount: nat, ctx: TokenContext)
    requires
        current_meta_of(tx, ctx.dep_metas@, ctx.input_metas@, hash) matches Ok(Some((m, _))) && flag_set(m.config_flags, CONFIG_PAUSED),
    ensures
        flow_outcome(tx, hash, amount, amount, ctx) == Err::<(), Error>(Error::MetaStateMismatch),
{
}

/// Paused metadata refuses mints.
pub proof fn lemma_paused_refuses_mint(tx: TxView, hash: Seq<u8>, input_amount: nat, output_amount: nat, ctx: TokenContext)
    requires
        output_amount > input_amount,
        current_meta_of(tx, ctx.dep_metas@, ctx.input_metas@, hash) matches Ok(Some((m, _))) && flag_set(m.config_flags, CONFIG_PAUSED),
    ensures
        flow_outcome(tx, hash, input_amount, output_amount, ctx) == Err::<(), Error>(Error::MetaStateMismatch),
{
}

/// Holders may always destroy their own token cells: a transaction that consumes token cells and
/// produces none, without consuming tracked metadata, is accepted, paused or not, whatever the
/// access list says.
pub proof fn lemma_user_destruction_allowed(tx: TxView, hash: Seq<u8>, input_amount: nat, ctx: TokenContext)
    requires
        input_amount > 0,
        meta_in(tx.inputs@, ctx.input_metas@, hash) is Ok,
        meta_in(tx.inputs@, ctx.input_metas@, hash) matches Ok(Some(m)) ==> !flag_set(m.config_flags, CONFIG_SUPPLY_TRACKED),
    ensures
        flow_outcome(tx, hash, input_amount, 0, ctx) == Ok::<(), Error>(()),
{
}

/// Minting under tracked metadata needs that metadata among the inputs, where the metadata
/// script accounts for the supply: a mint seen through a cell dep is refused.
pub proof fn lemma_tracked_mint_needs_meta_input(tx: TxView, hash: Seq<u8>, input_amount: nat, output_amount: nat, ctx: TokenContext)
    requires
        output_amount > input_amount,
        current_meta_of(tx, ctx.dep_metas@, ctx.input_metas@, hash) matches Ok(Some((m, source)))
            && flag_set(m.config_flags, CONFIG_SUPPLY_TRACKED) && !flag_set(m.config_flags, CONFIG_PAUSED)
            && source == Source::CellDep,
    ensures
        flow_outcome(tx, hash, input_amount, output_amount, ctx) == Err::<(), Error>(Error::MetaInputMissing),
{
}

} // verus!
