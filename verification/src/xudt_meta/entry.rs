//! The xUDT metadata script: creation, update or destruction of the group's metadata cell.
use vstd::prelude::*;
use crate::chain::{CodeHashes, TxView};
use crate::sys::ScriptError;
use crate::types::XudtMeta;
use crate::xudt_meta::error::Error;
use crate::xudt_meta::state::{full_domain_of, state_create_outcome, validate_create};
use crate::xudt_meta::update::{
    checks_fit, destroy_outcome, update_outcome, validate_destroy, validate_update, AuthorityChecks, DecodedRanges,
};

verus! {

/// The metadata cells of the script group, decoded: consumed, produced, and the group's type
/// hash.
pub struct MetaGroup {
    pub input: Option<XudtMeta>,
    pub output: Option<XudtMeta>,
    pub meta_type_hash: [u8; 32],
}

/// What the shared token and authority utilities reported for the transaction: the sum of the
/// bound xUDT outputs, the supply the token delta leads to from the input supply, and the input
/// authorities' checks.
pub struct UtilityResults {
    pub initial_supply: Result<u128, ScriptError>,
    pub supply_after_delta: Result<u128, ScriptError>,
    pub checks: AuthorityChecks,
}

/// The outcome of the script: a created cell must pass the type-id rule and the creation
/// rules, an updated cell the update rules, a destroyed cell the destruction rules; a group
/// without metadata cells is invalid.
pub open spec fn main_outcome(
    tx: TxView,
    group: MetaGroup,
    type_id_check: Result<(), Error>,
    codes: CodeHashes,
    utils: UtilityResults,
    decoded: DecodedRanges,
) -> Result<(), Error> {
    match (group.input, group.output) {
        (None, Some(output)) => match type_id_check {
            Err(e) => Err(e),
            Ok(()) => state_create_outcome(
                output,
                utils.initial_supply,
                full_domain_of(tx.outputs@, decoded.outputs@, group.meta_type_hash@, codes.access_list@),
            ),
        },
        (Some(input), Some(output)) => update_outcome(
            tx,
            input,
            output,
            group.meta_type_hash@,
            codes,
            utils.supply_after_delta,
            utils.checks,
            decoded,
        ),
        (Some(input), None) => destroy_outcome(tx, input, group.meta_type_hash@, codes, utils.checks.mint.passed, decoded),
        (None, None) => Err(Error::InvalidArgs),
    }
}

/// Runs the script on the group's decoded metadata cells.
pub fn main(
    tx: &TxView,
    group: &MetaGroup,
    type_id_check: Result<(), Error>,
    codes: &CodeHashes,
    utils: UtilityResults,
    decoded: &DecodedRanges,
) -> (r: Result<(), Error>)
    requires
        decoded.inputs@.len() == tx.inputs@.len(),
        decoded.outputs@.len() == tx.outputs@.len(),
        group.input matches Some(i) ==> checks_fit(utils.checks, i),
    ensures
        r == main_outcome(*tx, *group, type_id_check, *codes, utils, *decoded),
{
    match (&group.input, &group.output) {
        (None, Some(output)) => {
            type_id_check?;
            validate_create(tx, output, &group.meta_type_hash, codes, utils.initial_supply, &decoded.outputs)
        },
        (Some(input), Some(output)) => validate_update(
            tx,
            input,
            output,
            &group.meta_type_hash,
            codes,
            utils.supply_after_delta,
            utils.checks,
            decoded,
        ),
        (Some(input), None) => validate_destroy(tx, input, &group.meta_type_hash, codes, &utils.checks.mint, decoded),
        (None, None) => Err(Error::InvalidArgs),
    }
}

} // verus!
