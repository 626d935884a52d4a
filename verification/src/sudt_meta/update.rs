//! The rules for updating and destroying an sUDT metadata cell: the supply mode is fixed, a
//! tracked supply follows the transaction's token delta, every update needs the metadata
//! authority (or the mint authority in its place), and supply or mint-authority changes need
//! the mint authority.
use vstd::prelude::*;
use crate::bytes::bytes_eq;
use crate::chain::{bound_cell, has_bound_cell, TxView};
use crate::config::{flag_set, CONFIG_SUPPLY_TRACKED};
use crate::sudt_meta::error::Error;
use crate::sudt_meta::meta_cell::{is_supply_tracked, ParsedSudtMeta, ParsedSudtMetaV};
use crate::sys::ScriptError;
use crate::types::{authority_opt_eq, requires_authority, AuthorityRequirement};

verus! {

/// What the shared authority verifier reported for the transaction: requiring the metadata
/// authority with the mint authority as fallback, and requiring the mint authority.
pub struct AuthorityResults {
    pub metadata_or_mint: AuthorityRequirement,
    pub mint: AuthorityRequirement,
}

/// The requirements are of the input metadata's own authorities: the metadata authority with
/// the mint authority as fallback, and the mint authority alone.
pub open spec fn requirements_fit(authority: AuthorityResults, input: ParsedSudtMetaV) -> bool {
    &&& requires_authority(authority.metadata_or_mint, input.metadata_authority, input.mint_authority)
    &&& requires_authority(authority.mint, input.mint_authority, None)
}

/// The error a failed authority requirement is reported as.
pub open spec fn script_error_of(e: ScriptError) -> Error {
    match e {
        ScriptError::AuthorityMissing => Error::AuthorityMissing,
        ScriptError::AuthorityFailed | ScriptError::UnsupportedAuthorityLocation => Error::AuthorityFailed,
        ScriptError::InvalidAuthority => Error::InvalidMetaData,
        _ => Error::SyscallUnknown,
    }
}

/// The error a failed token delta or supply computation is reported as.
pub open spec fn token_error_of(e: ScriptError) -> Error {
    match e {
        ScriptError::AmountEncoding | ScriptError::AmountOverflow | ScriptError::SupplyOverflow
        | ScriptError::SupplyUnderflow => Error::InvalidSupply,
        _ => Error::SyscallUnknown,
    }
}

/// An authority requirement's result, as this script reports it.
pub open spec fn required(r: Result<(), ScriptError>) -> Result<(), Error> {
    match r {
        Ok(()) => Ok(()),
        Err(e) => Err(script_error_of(e)),
    }
}

/// The outcome of an update, given the supply the transaction's token delta leads to and the
/// authority requirements' results.
pub open spec fn update_outcome(
    input: ParsedSudtMetaV,
    output: ParsedSudtMetaV,
    supply_after_delta: Result<u128, ScriptError>,
    authority: AuthorityResults,
) -> Result<(), Error> {
    if flag_set(input.config_flags, CONFIG_SUPPLY_TRACKED) != flag_set(output.config_flags, CONFIG_SUPPLY_TRACKED) {
        Err(Error::ImmutableSupplyMode)
    } else if !flag_set(output.config_flags, CONFIG_SUPPLY_TRACKED) && output.current_supply != 0 {
        Err(Error::InvalidSupply)
    } else {
        let supply = if flag_set(output.config_flags, CONFIG_SUPPLY_TRACKED) {
            match supply_after_delta {
                Err(e) => Err(token_error_of(e)),
                Ok(expected) => if output.current_supply != expected {
                    Err(Error::InvalidSupply)
                } else {
                    Ok(())
                },
            }
        } else {
            Ok(())
        };
        if supply is Err {
            supply
        } else if required(authority.metadata_or_mint.result) is Err {
            required(authority.metadata_or_mint.result)
        } else if input.current_supply != output.current_supply || input.mint_authority != output.mint_authority {
            required(authority.mint.result)
        } else {
            Ok(())
        }
    }
}

/// The outcome of destroying metadata: only tracked metadata with a zero supply, with no sUDT
/// output bound to it, and with the mint authority's approval.
pub open spec fn destroy_outcome(tx: TxView, input: ParsedSudtMetaV, hash: Seq<u8>, udt_code: Seq<u8>, mint: Result<(), ScriptError>) -> Result<(), Error> {
    if !flag_set(input.config_flags, CONFIG_SUPPLY_TRACKED) || input.current_supply != 0 {
        Err(Error::InvalidSupply)
    } else if exists|i: int| 0 <= i < tx.outputs@.len() && bound_cell(#[trigger] tx.outputs@[i], hash, udt_code) {
        Err(Error::InvalidSupply)
    } else {
        required(mint)
    }
}

/// Whether the supply-tracking flag differs.
pub fn supply_mode_changed(input_flags: u8, output_flags: u8) -> (r: bool)
    ensures
        r == (flag_set(input_flags, CONFIG_SUPPLY_TRACKED) != flag_set(output_flags, CONFIG_SUPPLY_TRACKED)),
{
    is_supply_tracked(input_flags) != is_supply_tracked(output_flags)
}

/// Checks an update of the metadata cell. `supply_after_delta` is the input supply moved by the
/// transaction's sUDT delta, as the supply arithmetic reported it.
pub fn validate_update(
    input: &ParsedSudtMeta,
    output: &ParsedSudtMeta,
    supply_after_delta: Result<u128, ScriptError>,
    authority: &AuthorityResults,
) -> (r: Result<(), Error>)
    requires
        requirements_fit(*authority, input@),
    ensures
        r == update_outcome(input@, output@, supply_after_delta, *authority),
{
    if supply_mode_changed(input.config_flags, output.config_flags) {
        return Err(Error::ImmutableSupplyMode);
    }

    if !is_supply_tracked(output.config_flags) && output.current_supply != 0 {
        return Err(Error::InvalidSupply);
    }

    if is_supply_tracked(output.config_flags) {
        let expected_supply = match supply_after_delta {
            Ok(v) => v,
            Err(e) => return Err(map_token_error(e)),
        };
        if output.current_supply != expected_supply {
            return Err(Error::InvalidSupply);
        }
    }

    match authority.metadata_or_mint.result {
        Ok(()) => {},
        Err(e) => return Err(map_script_error(e)),
    }

    let supply_or_mint_authority_changed = input.current_supply != output.current_supply
        || !authority_opt_eq(&input.mint_authority, &output.mint_authority);
    if supply_or_mint_authority_changed {
        match authority.mint.result {
            Ok(()) => {},
            Err(e) => return Err(map_script_error(e)),
        }
    }

    Ok(())
}

/// Checks the destruction of the metadata cell; `udt_code_hash` is the code hash of the sUDT
/// script bound to it, `mint` what requiring the mint authority reported.
pub fn validate_destroy(
    tx: &TxView,
    input: &ParsedSudtMeta,
    meta_type_hash: &[u8; 32],
    udt_code_hash: &[u8; 32],
    mint: &AuthorityRequirement,
) -> (r: Result<(), Error>)
    requires
        requires_authority(*mint, input@.mint_authority, None),
    ensures
        r == destroy_outcome(*tx, input@, meta_type_hash@, udt_code_hash@, mint.result),
{
    if !is_supply_tracked(input.config_flags) || input.current_supply != 0 {
        return Err(Error::InvalidSupply);
    }
    if has_bound_cell(&tx.outputs, meta_type_hash, udt_code_hash) {
        return Err(Error::InvalidSupply);
    }
    match mint.result {
        Ok(()) => Ok(()),
        Err(e) => Err(map_script_error(e)),
    }
}

/// The error a failed authority requirement is reported as.
pub fn map_script_error(error: ScriptError) -> (r: Error)
    ensures
        r == script_error_of(error),
{
    match error {
        ScriptError::AuthorityMissing => Error::AuthorityMissing,
        ScriptError::AuthorityFailed | ScriptError::UnsupportedAuthorityLocation => Error::AuthorityFailed,
        ScriptError::InvalidAuthority => Error::InvalidMetaData,
        ScriptError::SyscallUnknown => Error::SyscallUnknown,
        _ => Error::SyscallUnknown,
    }
}

/// The error a failed token delta or supply computation is reported as.
pub fn map_token_error(error: ScriptError) -> (r: Error)
    ensures
        r == token_error_of(error),
{
    match error {
        ScriptError::AmountEncoding | ScriptError::AmountOverflow | ScriptError::SupplyOverflow
        | ScriptError::SupplyUnderflow => Error::InvalidSupply,
        ScriptError::SyscallUnknown => Error::SyscallUnknown,
        _ => Error::SyscallUnknown,
    }
}

/// Supply tracking is fixed at creation: an update that turns it on or off is refused.
pub proof fn lemma_supply_mode_immutable(
    input: ParsedSudtMetaV,
    output: ParsedSudtMetaV,
    supply_after_delta: Result<u128, ScriptError>,
    authority: AuthorityResults,
)
    requires
        flag_set(input.config_flags, CONFIG_SUPPLY_TRACKED) != flag_set(output.config_flags, CONFIG_SUPPLY_TRACKED),
    ensures
        update_outcome(input, output, supply_after_delta, authority) == Err::<(), Error>(Error::ImmutableSupplyMode),
{
}

/// An accepted update stores exactly the supply the token delta leads to under tracked supply,
/// and zero otherwise; and it had the metadata authority's (or the mint authority's) approval,
/// and the mint authority's approval when the supply or the mint authority changed.
pub proof fn lemma_accepted_update(
    input: ParsedSudtMetaV,
    output: ParsedSudtMetaV,
    supply_after_delta: Result<u128, ScriptError>,
    authority: AuthorityResults,
)
    requires
        update_outcome(input, output, supply_after_delta, authority) is Ok,
    ensures
        flag_set(output.config_flags, CONFIG_SUPPLY_TRACKED) ==> supply_after_delta == Ok::<u128, ScriptError>(output.current_supply),
        !flag_set(output.config_flags, CONFIG_SUPPLY_TRACKED) ==> output.current_supply == 0,
        authority.metadata_or_mint.result is Ok,
        (input.current_supply != output.current_supply || input.mint_authority != output.mint_authority) ==> authority.mint.result is Ok,
{
}

/// Destruction needs tracked supply at zero, no bound sUDT output and the mint authority.
pub proof fn lemma_accepted_destroy(tx: TxView, input: ParsedSudtMetaV, hash: Seq<u8>, udt_code: Seq<u8>, mint: Result<(), ScriptError>)
    requires
        destroy_outcome(tx, input, hash, udt_code, mint) is Ok,
    ensures
        flag_set(input.config_flags, CONFIG_SUPPLY_TRACKED),
        input.current_supply == 0,
        forall|i: int| 0 <= i < tx.outputs@.len() ==> !bound_cell(#[trigger] tx.outputs@[i], hash, udt_code),
        mint is Ok,
{
}

} // verus!
