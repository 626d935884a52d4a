//! The sUDT metadata script: creation, update or destruction of the group's metadata cell.
use vstd::prelude::*;
use crate::chain::TxView;
use crate::sudt_meta::error::Error;
use crate::sudt_meta::meta_cell::{
    create_outcome, group_meta_of, load_meta_group, validate_create, validate_create_type_id,
    validate_type_args,
};
use crate::sudt_meta::update::{
    destroy_outcome, requirements_fit, update_outcome, validate_destroy, validate_update, AuthorityResults,
};
use crate::sys::{ScriptError, SysErrorKind};
use crate::types::SudtMeta;

verus! {

/// What the metadata script learns from outside its own logic: the table each group cell's data
/// decodes to, the type-id rule's outcome, the code hash of the bound sUDT script, the supply
/// the transaction's token delta leads to, and the authority requirements' results.
pub struct MetaContext {
    pub input_metas: Vec<Option<SudtMeta>>,
    pub output_metas: Vec<Option<SudtMeta>>,
    pub type_id_check: Result<(), SysErrorKind>,
    pub udt_code_hash: [u8; 32],
    pub supply_after_delta: Result<u128, ScriptError>,
    pub authority: AuthorityResults,
}

/// The context matches the transaction: one decoding per group cell, and the authority
/// requirements are of the consumed metadata's own authorities.
pub open spec fn context_fits(tx: TxView, ctx: MetaContext) -> bool {
    &&& ctx.input_metas@.len() == tx.group_inputs@.len()
    &&& ctx.output_metas@.len() == tx.group_outputs@.len()
    &&& group_meta_of(tx.group_inputs@, ctx.input_metas@, false) matches Ok(Some(m)) ==> requirements_fit(ctx.authority, m)
}

/// The outcome of the script: a produced cell without a consumed one is a creation (type id
/// and supply), a consumed and a produced one an update, a consumed one without a produced one
/// a destruction; a group without metadata cells is invalid.
pub open spec fn run_outcome(tx: TxView, ctx: MetaContext) -> Result<(), Error> {
    if tx.script_args@.len() != 32 {
        Err(Error::InvalidArgs)
    } else {
        match group_meta_of(tx.group_inputs@, ctx.input_metas@, false) {
            Err(e) => Err(e),
            Ok(input) => match group_meta_of(tx.group_outputs@, ctx.output_metas@, true) {
                Err(e) => Err(e),
                Ok(output) => match (input, output) {
                    (None, Some(out)) => if ctx.type_id_check is Err {
                        Err(Error::InvalidTypeId)
                    } else {
                        create_outcome(tx, out.config_flags, out.current_supply as nat, tx.script_hash@, ctx.udt_code_hash@)
                    },
                    (Some(inp), Some(out)) => update_outcome(inp, out, ctx.supply_after_delta, ctx.authority),
                    (Some(inp), None) => destroy_outcome(tx, inp, tx.script_hash@, ctx.udt_code_hash@, ctx.authority.mint.result),
                    (None, None) => Err(Error::InvalidArgs),
                },
            },
        }
    }
}

/// Validates the transaction.
pub fn run(tx: &TxView, ctx: &MetaContext) -> (r: Result<(), Error>)
    requires
        context_fits(*tx, *ctx),
    ensures
        r == run_outcome(*tx, *ctx),
{
    validate_type_args(tx)?;
    let group = load_meta_group(tx, &ctx.input_metas, &ctx.output_metas)?;

    match (&group.input, &group.output) {
        (None, Some(output)) => {
            validate_create_type_id(ctx.type_id_check)?;
            validate_create(tx, output, &group.meta_type_hash, &ctx.udt_code_hash)
        },
        (Some(input), Some(output)) => validate_update(input, output, ctx.supply_after_delta, &ctx.authority),
        (Some(input), None) => validate_destroy(tx, input, &group.meta_type_hash, &ctx.udt_code_hash, &ctx.authority.mint),
        (None, None) => Err(Error::InvalidArgs),
    }
}

/// The script's exit code: `0` when the transaction is valid, the error's code otherwise.
pub fn program_entry(tx: &TxView, ctx: &MetaContext) -> (r: i8)
    requires
        context_fits(*tx, *ctx),
    ensures
        match run_outcome(*tx, *ctx) {
            Ok(()) => r == 0,
            Err(e) => r == e.code_of(),
        },
{
    match run(tx, ctx) {
        Ok(()) => 0,
        Err(error) => error.code(),
    }
}

} // verus!
