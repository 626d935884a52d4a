//! Enhanced sUDT metadata entry: creation or update of the group's metadata cell.
use vstd::prelude::*;
use crate::chain::TxView;
use crate::enhanced_sudt_meta::error::Error;
use crate::enhanced_sudt_meta::meta_cell::{
    create_outcome, group_meta_of, load_meta_group, validate_create, validate_create_type_id,
    validate_type_args,
};
use crate::enhanced_sudt_meta::update::{update_outcome, validate_update};
use crate::sys::SysErrorKind;

verus! {

/// The outcome of the script: a produced cell without a consumed one is a creation (type id
/// and supply), a consumed and a produced one an update; anything else is invalid.
pub open spec fn run_outcome(tx: TxView, type_id_check: Result<(), SysErrorKind>) -> Result<(), Error> {
    if tx.script_args@.len() != 32 {
        Err(Error::InvalidArgs)
    } else {
        match group_meta_of(tx.group_inputs@) {
            Err(e) => Err(e),
            Ok(input) => match group_meta_of(tx.group_outputs@) {
                Err(e) => Err(e),
                Ok(output) => match (input, output) {
                    (None, Some(out)) => if type_id_check is Err {
                        Err(Error::InvalidTypeId)
                    } else {
                        create_outcome(tx, out, tx.script_hash@)
                    },
                    (Some(inp), Some(out)) => update_outcome(inp, out),
                    _ => Err(Error::InvalidArgs),
                },
            },
        }
    }
}

/// Validates the transaction; `type_id_check` is the outcome of the type-id rule on it.
pub fn run(tx: &TxView, type_id_check: Result<(), SysErrorKind>) -> (r: Result<(), Error>)
    ensures
        r == run_outcome(*tx, type_id_check),
{
    validate_type_args(tx)?;
    let group = load_meta_group(tx)?;

    match (&group.input, &group.output) {
        (None, Some(output)) => {
            validate_create_type_id(type_id_check)?;
            validate_create(tx, output, &group.meta_type_hash)
        },
        (Some(input), Some(output)) => validate_update(input, output),
        _ => Err(Error::InvalidArgs),
    }
}

/// The script's exit code: `0` when the transaction is valid, the error's code otherwise.
pub fn program_entry(tx: &TxView, type_id_check: Result<(), SysErrorKind>) -> (r: i8)
    ensures
        match run_outcome(*tx, type_id_check) {
            Ok(()) => r == 0,
            Err(e) => r == e.code_of(),
        },
{
    match run(tx, type_id_check) {
        Ok(()) => 0,
        Err(error) => error.code(),
    }
}

} // verus!
