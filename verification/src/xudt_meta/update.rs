//! The rules for updating and destroying an xUDT metadata cell: the supply mode is fixed, a
//! tracked supply follows the transaction's token delta, each kind of change needs its authority
//! (an update that changes nothing needs one too), a change of access mode needs the AccessList
//! to cover the whole key domain, and only tracked metadata at zero supply can be destroyed.
use vstd::prelude::*;
use crate::byte32::lex_le;
use crate::bytes::bytes_eq;
use crate::chain::{bound_cell, CellView, CodeHashes, TxView};
use crate::config::{flag_set, CONFIG_ACCESS_ENABLED, CONFIG_ACCESS_WHITELIST, CONFIG_PAUSED, CONFIG_SUPPLY_TRACKED};
use crate::domain::KeyRange;
use crate::sys::ScriptError;
use crate::types::{
    auth_opt_v, authority_opt_eq, checks_authority, extensions_eq, extensions_v, Authority, AuthorityCheck, XudtMeta,
};
use crate::xudt_meta::config::{access_enabled, is_supply_tracked, paused, whitelist_mode};
use crate::xudt_meta::error::Error;
use crate::xudt_meta::state::{
    full_domain_of, lemma_full_domain_of_holds_every_key, has_bound_access_list_outputs, has_bound_xudt_cells, has_bound_xudt_outputs,
    has_full_domain_access_list_inputs, has_full_domain_access_list_outputs,
};
use crate::xudt_meta::token::token_cells_present;

verus! {

/// What checking each authority of the input metadata against the transaction reported.
pub struct AuthorityChecks {
    pub mint: AuthorityCheck,
    pub metadata: AuthorityCheck,
    pub access: AuthorityCheck,
}

/// The checks are of the input metadata's own authorities: mint, metadata and access.
pub open spec fn checks_fit(checks: AuthorityChecks, input: XudtMeta) -> bool {
    &&& checks_authority(checks.mint, auth_opt_v(input.mint_authority))
    &&& checks_authority(checks.metadata, auth_opt_v(input.metadata_authority))
    &&& checks_authority(checks.access, auth_opt_v(input.access_authority))
}

/// The decoded AccessList ranges of the transaction's inputs and outputs, cell by cell.
pub struct DecodedRanges {
    pub inputs: Vec<Option<KeyRange>>,
    pub outputs: Vec<Option<KeyRange>>,
}

/// The error a failed authority check is reported as.
pub open spec fn script_error_of(e: ScriptError) -> Error {
    match e {
        ScriptError::AuthorityFailed | ScriptError::UnsupportedAuthorityLocation => Error::AuthorityFailed,
        ScriptError::InvalidAuthority => Error::InvalidMetaData,
        _ => Error::SyscallUnknown,
    }
}

/// The error a failed token delta or supply computation is reported as.
pub open spec fn supply_error_of(e: ScriptError) -> Error {
    match e {
        ScriptError::AmountEncoding | ScriptError::AmountOverflow | ScriptError::SupplyOverflow
        | ScriptError::SupplyUnderflow => Error::InvalidSupply,
        _ => Error::SyscallUnknown,
    }
}

/// An authority is present and its check passed.
pub open spec fn authority_required(a: Option<Authority>, check: Result<bool, ScriptError>) -> Result<(), Error> {
    match a {
        None => Err(Error::AuthorityMissing),
        Some(_) => match check {
            Ok(true) => Ok(()),
            Ok(false) => Err(Error::AuthorityFailed),
            Err(e) => Err(script_error_of(e)),
        },
    }
}

/// An authority, or else the mint authority, passed: a present authority whose check fails with
/// no mint authority to fall back on is a failure.
pub open spec fn authority_or_mint(
    a: Option<Authority>,
    check: Result<bool, ScriptError>,
    mint: Option<Authority>,
    mint_check: Result<bool, ScriptError>,
) -> Result<(), Error> {
    match a {
        Some(_) => match check {
            Err(e) => Err(script_error_of(e)),
            Ok(true) => Ok(()),
            Ok(false) => if mint is None {
                Err(Error::AuthorityFailed)
            } else {
                authority_required(mint, mint_check)
            },
        },
        None => authority_required(mint, mint_check),
    }
}

/// The metadata fields (decimals, name, symbol, uri, extra data, metadata authority) differ.
pub open spec fn metadata_changed(input: XudtMeta, output: XudtMeta) -> bool {
    input.decimals != output.decimals || input.name@ != output.name@ || input.symbol@ != output.symbol@
        || input.uri@ != output.uri@ || input.extra_data@ != output.extra_data@
        || auth_opt_v(input.metadata_authority) != auth_opt_v(output.metadata_authority)
}

/// Nothing an authority guards differs: access state, extensions, metadata fields, supply and
/// mint authority are all kept. Consuming the metadata cell still needs an authority then: the
/// metadata authority, or the mint authority in its place.
pub open spec fn unchanged(input: XudtMeta, output: XudtMeta) -> bool {
    &&& !access_state_changed(input, output)
    &&& extensions_v(input.extensions@) == extensions_v(output.extensions@)
    &&& !metadata_changed(input, output)
    &&& input.current_supply == output.current_supply
    &&& auth_opt_v(input.mint_authority) == auth_opt_v(output.mint_authority)
}

/// The access state (mode, pause, access authority) differs.
pub open spec fn access_state_changed(input: XudtMeta, output: XudtMeta) -> bool {
    flag_set(input.config_flags, CONFIG_ACCESS_ENABLED) != flag_set(output.config_flags, CONFIG_ACCESS_ENABLED)
        || flag_set(input.config_flags, CONFIG_ACCESS_WHITELIST) != flag_set(output.config_flags, CONFIG_ACCESS_WHITELIST)
        || flag_set(input.config_flags, CONFIG_PAUSED) != flag_set(output.config_flags, CONFIG_PAUSED)
        || auth_opt_v(input.access_authority) != auth_opt_v(output.access_authority)
}

/// The outcome of a change of access mode: no xUDT cell may move in the same transaction;
/// enabling access control needs full-domain AccessList outputs, disabling it full-domain
/// AccessList inputs, and switching between blacklist and whitelist both.
pub open spec fn transition_outcome(
    tx: TxView,
    input_flags: u8,
    output_flags: u8,
    hash: Seq<u8>,
    codes: CodeHashes,
    decoded: DecodedRanges,
) -> Result<(), Error> {
    let ie = flag_set(input_flags, CONFIG_ACCESS_ENABLED);
    let iw = flag_set(input_flags, CONFIG_ACCESS_WHITELIST);
    let oe = flag_set(output_flags, CONFIG_ACCESS_ENABLED);
    let ow = flag_set(output_flags, CONFIG_ACCESS_WHITELIST);
    let inputs = full_domain_of(tx.inputs@, decoded.inputs@, hash, codes.access_list@);
    let outputs = full_domain_of(tx.outputs@, decoded.outputs@, hash, codes.access_list@);
    if ie == oe && iw == ow {
        Ok(())
    } else if token_cells_present(tx, hash, codes.udt@) {
        Err(Error::AccessModeTokenCells)
    } else if !ie && !iw && oe {
        covered(outputs)
    } else if ie && !oe && !ow {
        covered(inputs)
    } else if ie && oe && iw != ow {
        match inputs {
            Err(e) => Err(e),
            Ok(false) => Err(Error::AccessListRequired),
            Ok(true) => covered(outputs),
        }
    } else {
        Ok(())
    }
}

/// A coverage search that must have found the whole key domain covered.
pub open spec fn covered(found: Result<bool, Error>) -> Result<(), Error> {
    match found {
        Err(e) => Err(e),
        Ok(false) => Err(Error::AccessListRequired),
        Ok(true) => Ok(()),
    }
}

/// The outcome of an update, given the supply the transaction's token delta leads to and the
/// authority checks: the checks run in order and the first failure is the outcome. Access-state
/// changes need the access authority (or the mint authority), extension changes the mint
/// authority, metadata-field changes, and an update that changes nothing, the metadata authority
/// (or the mint authority), supply and mint-authority changes the mint authority.
pub open spec fn update_outcome(
    tx: TxView,
    input: XudtMeta,
    output: XudtMeta,
    hash: Seq<u8>,
    codes: CodeHashes,
    supply_after_delta: Result<u128, ScriptError>,
    checks: AuthorityChecks,
    decoded: DecodedRanges,
) -> Result<(), Error> {
    if flag_set(input.config_flags, CONFIG_SUPPLY_TRACKED) != flag_set(output.config_flags, CONFIG_SUPPLY_TRACKED) {
        Err(Error::ImmutableSupplyMode)
    } else if !flag_set(output.config_flags, CONFIG_SUPPLY_TRACKED) && output.current_supply != 0 {
        Err(Error::InvalidSupply)
    } else {
        let supply = if flag_set(output.config_flags, CONFIG_SUPPLY_TRACKED) {
            match supply_after_delta {
                Err(e) => Err(supply_error_of(e)),
                Ok(expected) => if output.current_supply == expected {
                    Ok(())
                } else {
                    Err(Error::InvalidSupply)
                },
            }
        } else {
            Ok(())
        };
        let access = if access_state_changed(input, output) {
            authority_or_mint(input.access_authority, checks.access.passed, input.mint_authority, checks.mint.passed)
        } else {
            Ok(())
        };
        let extensions = if extensions_v(input.extensions@) != extensions_v(output.extensions@) {
            authority_required(input.mint_authority, checks.mint.passed)
        } else {
            Ok(())
        };
        let metadata = if metadata_changed(input, output) || unchanged(input, output) {
            authority_or_mint(input.metadata_authority, checks.metadata.passed, input.mint_authority, checks.mint.passed)
        } else {
            Ok(())
        };
        let mint = if input.current_supply != output.current_supply
            || auth_opt_v(input.mint_authority) != auth_opt_v(output.mint_authority) {
            authority_required(input.mint_authority, checks.mint.passed)
        } else {
            Ok(())
        };
        if supply is Err {
            supply
        } else if access is Err {
            access
        } else if extensions is Err {
            extensions
        } else if metadata is Err {
            metadata
        } else if mint is Err {
            mint
        } else {
            transition_outcome(tx, input.config_flags, output.config_flags, hash, codes, decoded)
        }
    }
}

/// Supply tracking is fixed at creation: an update that turns it on or off is refused.
pub proof fn lemma_supply_mode_immutable(
    tx: TxView,
    input: XudtMeta,
    output: XudtMeta,
    hash: Seq<u8>,
    codes: CodeHashes,
    supply_after_delta: Result<u128, ScriptError>,
    checks: AuthorityChecks,
    decoded: DecodedRanges,
)
    requires
        flag_set(input.config_flags, CONFIG_SUPPLY_TRACKED) != flag_set(output.config_flags, CONFIG_SUPPLY_TRACKED),
    ensures
        update_outcome(tx, input, output, hash, codes, supply_after_delta, checks, decoded) == Err::<(), Error>(Error::ImmutableSupplyMode),
{
}

/// An accepted update of tracked metadata stores exactly the supply the transaction's token
/// delta leads to, and an accepted update of untracked metadata stores zero: the supply cannot
/// be changed without matching token movement.
pub proof fn lemma_accepted_supply_follows_delta(
    tx: TxView,
    input: XudtMeta,
    output: XudtMeta,
    hash: Seq<u8>,
    codes: CodeHashes,
    supply_after_delta: Result<u128, ScriptError>,
    checks: AuthorityChecks,
    decoded: DecodedRanges,
)
    requires
        update_outcome(tx, input, output, hash, codes, supply_after_delta, checks, decoded) is Ok,
    ensures
        flag_set(output.config_flags, CONFIG_SUPPLY_TRACKED) ==> supply_after_delta == Ok::<u128, ScriptError>(output.current_supply),
        !flag_set(output.config_flags, CONFIG_SUPPLY_TRACKED) ==> output.current_supply == 0,
{
}

/// Without a mint authority the supply is fixed: no accepted update changes it, nor adds a mint
/// authority, nor changes the extensions.
pub proof fn lemma_no_mint_authority_fixes_supply(
    tx: TxView,
    input: XudtMeta,
    output: XudtMeta,
    hash: Seq<u8>,
    codes: CodeHashes,
    supply_after_delta: Result<u128, ScriptError>,
    checks: AuthorityChecks,
    decoded: DecodedRanges,
)
    requires
        input.mint_authority is None,
        update_outcome(tx, input, output, hash, codes, supply_after_delta, checks, decoded) is Ok,
    ensures
        output.current_supply == input.current_supply,
        output.mint_authority is None,
        extensions_v(output.extensions@) == extensions_v(input.extensions@),
{
    if output.mint_authority is Some {
        assert(auth_opt_v(input.mint_authority) != auth_opt_v(output.mint_authority));
    }
}

/// An accepted update that changes the access mode moves no xUDT cell of this metadata.
pub proof fn lemma_mode_change_moves_no_tokens(
    tx: TxView,
    input: XudtMeta,
    output: XudtMeta,
    hash: Seq<u8>,
    codes: CodeHashes,
    supply_after_delta: Result<u128, ScriptError>,
    checks: AuthorityChecks,
    decoded: DecodedRanges,
)
    requires
        flag_set(input.config_flags, CONFIG_ACCESS_ENABLED) != flag_set(output.config_flags, CONFIG_ACCESS_ENABLED)
            || flag_set(input.config_flags, CONFIG_ACCESS_WHITELIST) != flag_set(output.config_flags, CONFIG_ACCESS_WHITELIST),
        update_outcome(tx, input, output, hash, codes, supply_after_delta, checks, decoded) is Ok,
    ensures
        !token_cells_present(tx, hash, codes.udt@),
{
}

/// An update that leaves the metadata as it was still needs an authority: once a tracked supply
/// is left unchanged by the token delta (an untracked supply being zero), it is accepted exactly
/// when the metadata authority, or the mint authority in its place, authorizes it.
pub proof fn lemma_unchanged_update_needs_authority(
    tx: TxView,
    meta: XudtMeta,
    hash: Seq<u8>,
    codes: CodeHashes,
    supply_after_delta: Result<u128, ScriptError>,
    checks: AuthorityChecks,
    decoded: DecodedRanges,
)
    requires
        flag_set(meta.config_flags, CONFIG_SUPPLY_TRACKED) ==> supply_after_delta == Ok::<u128, ScriptError>(meta.current_supply),
        !flag_set(meta.config_flags, CONFIG_SUPPLY_TRACKED) ==> meta.current_supply == 0,
    ensures
        update_outcome(tx, meta, meta, hash, codes, supply_after_delta, checks, decoded)
            == authority_or_mint(meta.metadata_authority, checks.metadata.passed, meta.mint_authority, checks.mint.passed),
{
}

proof fn lemma_flag_bit_eq(a: u8, b: u8)
    ensures
        (a & 1u8 != b & 1u8) == ((a & 1u8 != 0) != (b & 1u8 != 0)),
{
    assert((a & 1u8 != b & 1u8) == ((a & 1u8 != 0) != (b & 1u8 != 0))) by (bit_vector);
}

/// Checks an update of the metadata cell. `supply_after_delta` is the input supply moved by the
/// transaction's xUDT delta, as the supply arithmetic reported it; `checks` holds what checking
/// each input authority reported; `decoded` the AccessList ranges decoded from each cell.
pub fn validate_update(
    tx: &TxView,
    input: &XudtMeta,
    output: &XudtMeta,
    meta_type_hash: &[u8; 32],
    codes: &CodeHashes,
    supply_after_delta: Result<u128, ScriptError>,
    checks: AuthorityChecks,
    decoded: &DecodedRanges,
) -> (r: Result<(), Error>)
    requires
        decoded.inputs@.len() == tx.inputs@.len(),
        decoded.outputs@.len() == tx.outputs@.len(),
        checks_fit(checks, *input),
    ensures
        r == update_outcome(*tx, *input, *output, meta_type_hash@, *codes, supply_after_delta, checks, *decoded),
{
    proof {
        lemma_flag_bit_eq(input.config_flags, output.config_flags);
    }
    if input.config_flags & CONFIG_SUPPLY_TRACKED != output.config_flags & CONFIG_SUPPLY_TRACKED {
        return Err(Error::ImmutableSupplyMode);
    }

    if !is_supply_tracked(output.config_flags) && output.current_supply != 0 {
        return Err(Error::InvalidSupply);
    }

    if is_supply_tracked(output.config_flags) {
        validate_supply_delta(output.current_supply, supply_after_delta)?;
    }

    let access_changed = access_enabled(input.config_flags) != access_enabled(output.config_flags)
        || whitelist_mode(input.config_flags) != whitelist_mode(output.config_flags)
        || paused(input.config_flags) != paused(output.config_flags)
        || !authority_opt_eq(&input.access_authority, &output.access_authority);
    let extensions_changed = !extensions_eq(&input.extensions, &output.extensions);
    let metadata_fields_changed = input.decimals != output.decimals
        || !bytes_eq(input.name.as_slice(), output.name.as_slice())
        || !bytes_eq(input.symbol.as_slice(), output.symbol.as_slice())
        || !bytes_eq(input.uri.as_slice(), output.uri.as_slice())
        || !bytes_eq(input.extra_data.as_slice(), output.extra_data.as_slice())
        || !authority_opt_eq(&input.metadata_authority, &output.metadata_authority);
    let mint_changed = input.current_supply != output.current_supply
        || !authority_opt_eq(&input.mint_authority, &output.mint_authority);
    let nothing_changed = !access_changed && !extensions_changed && !metadata_fields_changed && !mint_changed;

    if access_changed {
        require_authority_with_mint_fallback(&input.access_authority, checks.access.passed, &input.mint_authority, checks.mint.passed)?;
    }

    if extensions_changed {
        require_authority(&input.mint_authority, checks.mint.passed)?;
    }

    if metadata_fields_changed || nothing_changed {
        require_authority_with_mint_fallback(&input.metadata_authority, checks.metadata.passed, &input.mint_authority, checks.mint.passed)?;
    }

    if mint_changed {
        require_authority(&input.mint_authority, checks.mint.passed)?;
    }

    validate_access_mode_transition(tx, input.config_flags, output.config_flags, meta_type_hash, codes, decoded)?;

    Ok(())
}

/// A tracked supply must equal the supply the transaction's token delta leads to.
pub fn validate_supply_delta(output_supply: u128, supply_after_delta: Result<u128, ScriptError>) -> (r: Result<(), Error>)
    ensures
        r == (match supply_after_delta {
            Err(e) => Err(supply_error_of(e)),
            Ok(expected) => if output_supply == expected {
                Ok::<(), Error>(())
            } else {
                Err(Error::InvalidSupply)
            },
        }),
{
    let expected = match supply_after_delta {
        Ok(v) => v,
        Err(e) => return Err(map_supply_error(e)),
    };
    if output_supply == expected {
        Ok(())
    } else {
        Err(Error::InvalidSupply)
    }
}

/// The error a failed token delta or supply computation is reported as.
pub fn map_supply_error(error: ScriptError) -> (r: Error)
    ensures
        r == supply_error_of(error),
{
    match error {
        ScriptError::AmountEncoding | ScriptError::AmountOverflow | ScriptError::SupplyOverflow
        | ScriptError::SupplyUnderflow => Error::InvalidSupply,
        ScriptError::SyscallUnknown => Error::SyscallUnknown,
        _ => Error::SyscallUnknown,
    }
}

/// Checks a change of access mode.
pub fn validate_access_mode_transition(
    tx: &TxView,
    input_flags: u8,
    output_flags: u8,
    meta_type_hash: &[u8; 32],
    codes: &CodeHashes,
    decoded: &DecodedRanges,
) -> (r: Result<(), Error>)
    requires
        decoded.inputs@.len() == tx.inputs@.len(),
        decoded.outputs@.len() == tx.outputs@.len(),
    ensures
        r == transition_outcome(*tx, input_flags, output_flags, meta_type_hash@, *codes, *decoded),
{
    let input_enabled = access_enabled(input_flags);
    let output_enabled = access_enabled(output_flags);
    let input_whitelist = whitelist_mode(input_flags);
    let output_whitelist = whitelist_mode(output_flags);

    if input_enabled == output_enabled && input_whitelist == output_whitelist {
        return Ok(());
    }

    if has_bound_xudt_cells(tx, meta_type_hash, codes)? {
        return Err(Error::AccessModeTokenCells);
    }

    match (input_enabled, input_whitelist, output_enabled, output_whitelist) {
        (false, false, true, false) | (false, false, true, true) => {
            if !has_full_domain_access_list_outputs(tx, meta_type_hash, codes, &decoded.outputs)? {
                return Err(Error::AccessListRequired);
            }
        },
        (true, false, false, false) | (true, true, false, false) => {
            if !has_full_domain_access_list_inputs(tx, meta_type_hash, codes, &decoded.inputs)? {
                return Err(Error::AccessListRequired);
            }
        },
        (true, false, true, true) | (true, true, true, false) => {
            if !has_full_domain_access_list_inputs(tx, meta_type_hash, codes, &decoded.inputs)?
                || !has_full_domain_access_list_outputs(tx, meta_type_hash, codes, &decoded.outputs)? {
                return Err(Error::AccessListRequired);
            }
        },
        _ => {},
    }

    Ok(())
}

/// The authority must be present and its check must have passed.
pub fn require_authority(authority: &Option<Authority>, check: Result<bool, ScriptError>) -> (r: Result<(), Error>)
    ensures
        r == authority_required(*authority, check),
{
    if authority.is_none() {
        return Err(Error::AuthorityMissing);
    }
    match check {
        Ok(true) => Ok(()),
        Ok(false) => Err(Error::AuthorityFailed),
        Err(error) => Err(map_script_error(error)),
    }
}

/// The authority's check must have passed, or else the mint authority's.
pub fn require_authority_with_mint_fallback(
    authority: &Option<Authority>,
    check: Result<bool, ScriptError>,
    mint_authority: &Option<Authority>,
    mint_check: Result<bool, ScriptError>,
) -> (r: Result<(), Error>)
    ensures
        r == authority_or_mint(*authority, check, *mint_authority, mint_check),
{
    if authority.is_some() {
        match check {
            Err(error) => return Err(map_script_error(error)),
            Ok(true) => return Ok(()),
            Ok(false) => {
                if mint_authority.is_none() {
                    return Err(Error::AuthorityFailed);
                }
            },
        }
    }
    require_authority(mint_authority, mint_check)
}

/// The error a failed authority check is reported as.
pub fn map_script_error(error: ScriptError) -> (r: Error)
    ensures
        r == script_error_of(error),
{
    match error {
        ScriptError::AuthorityFailed | ScriptError::UnsupportedAuthorityLocation => Error::AuthorityFailed,
        ScriptError::InvalidAuthority => Error::InvalidMetaData,
        ScriptError::SyscallUnknown => Error::SyscallUnknown,
        _ => Error::SyscallUnknown,
    }
}

/// The outcome of destroying metadata: only tracked metadata with a zero supply and no xUDT
/// output bound to it, with the mint authority's approval; while access control is on, the
/// transaction must also consume AccessList cells covering the whole key domain and leave no
/// AccessList output bound to the metadata.
pub open spec fn destroy_outcome(
    tx: TxView,
    input: XudtMeta,
    hash: Seq<u8>,
    codes: CodeHashes,
    mint_check: Result<bool, ScriptError>,
    decoded: DecodedRanges,
) -> Result<(), Error> {
    let inputs = full_domain_of(tx.inputs@, decoded.inputs@, hash, codes.access_list@);
    if !flag_set(input.config_flags, CONFIG_SUPPLY_TRACKED) || input.current_supply != 0 {
        Err(Error::InvalidSupply)
    } else if exists|i: int| 0 <= i < tx.outputs@.len() && bound_cell(#[trigger] tx.outputs@[i], hash, codes.udt@) {
        Err(Error::InvalidSupply)
    } else if authority_required(input.mint_authority, mint_check) is Err {
        authority_required(input.mint_authority, mint_check)
    } else if !flag_set(input.config_flags, CONFIG_ACCESS_ENABLED) {
        Ok(())
    } else if covered(inputs) is Err {
        covered(inputs)
    } else if exists|i: int| 0 <= i < tx.outputs@.len() && bound_cell(#[trigger] tx.outputs@[i], hash, codes.access_list@) {
        Err(Error::AccessListRequired)
    } else {
        Ok(())
    }
}

/// Checks a destruction of the metadata cell; `mint_check` is what checking the input's mint
/// authority reported.
pub fn validate_destroy(
    tx: &TxView,
    input: &XudtMeta,
    meta_type_hash: &[u8; 32],
    codes: &CodeHashes,
    mint_check: &AuthorityCheck,
    decoded: &DecodedRanges,
) -> (r: Result<(), Error>)
    requires
        decoded.inputs@.len() == tx.inputs@.len(),
        checks_authority(*mint_check, auth_opt_v(input.mint_authority)),
    ensures
        r == destroy_outcome(*tx, *input, meta_type_hash@, *codes, mint_check.passed, *decoded),
{
    if !is_supply_tracked(input.config_flags) || input.current_supply != 0 {
        return Err(Error::InvalidSupply);
    }
    if has_bound_xudt_outputs(tx, meta_type_hash, codes)? {
        return Err(Error::InvalidSupply);
    }
    require_authority(&input.mint_authority, mint_check.passed)?;
    if !access_enabled(input.config_flags) {
        return Ok(());
    }
    if !has_full_domain_access_list_inputs(tx, meta_type_hash, codes, &decoded.inputs)? {
        return Err(Error::AccessListRequired);
    }
    if has_bound_access_list_outputs(tx, meta_type_hash, codes)? {
        return Err(Error::AccessListRequired);
    }
    Ok(())
}

/// Only tracked metadata at zero supply can be destroyed, with the mint authority's approval and
/// no xUDT output left bound to it; under access control, only with AccessList inputs covering
/// the whole key domain and no AccessList output left bound to it.
pub proof fn lemma_accepted_destroy(
    tx: TxView,
    input: XudtMeta,
    hash: Seq<u8>,
    codes: CodeHashes,
    mint_check: Result<bool, ScriptError>,
    decoded: DecodedRanges,
)
    requires
        destroy_outcome(tx, input, hash, codes, mint_check, decoded) is Ok,
    ensures
        flag_set(input.config_flags, CONFIG_SUPPLY_TRACKED),
        input.current_supply == 0,
        input.mint_authority is Some && mint_check == Ok::<bool, ScriptError>(true),
        forall|i: int| 0 <= i < tx.outputs@.len() ==> !bound_cell(#[trigger] tx.outputs@[i], hash, codes.udt@),
        flag_set(input.config_flags, CONFIG_ACCESS_ENABLED) ==> {
            &&& full_domain_of(tx.inputs@, decoded.inputs@, hash, codes.access_list@) == Ok::<bool, Error>(true)
            &&& forall|i: int| 0 <= i < tx.outputs@.len() ==> !bound_cell(#[trigger] tx.outputs@[i], hash, codes.access_list@)
        },
{
}

/// `key` lies in the range decoded from one of the cells that is an AccessList cell bound to
/// the metadata.
pub open spec fn list_cell_holds(cells: Seq<CellView>, decoded: Seq<Option<KeyRange>>, hash: Seq<u8>, code: Seq<u8>, key: Seq<u8>) -> bool {
    exists|i: int| 0 <= i < cells.len() && #[trigger] bound_cell(cells[i], hash, code)
        && (decoded[i] matches Some(r) && lex_le(r.0@, key) && lex_le(key, r.1@))
}

/// A change of access mode is accepted only with the AccessList covering the whole key domain
/// where the change needs it, and with no token cell of the metadata in the transaction:
/// turning access control off needs the consumed AccessList cells to cover every key (so the
/// list is consumed with it), turning it on needs the produced ones to cover every key, and
/// switching between blacklist and whitelist needs both.
pub proof fn lemma_access_mode_change_needs_full_list(
    tx: TxView,
    input_flags: u8,
    output_flags: u8,
    hash: Seq<u8>,
    codes: CodeHashes,
    decoded: DecodedRanges,
    key: Seq<u8>,
)
    requires
        transition_outcome(tx, input_flags, output_flags, hash, codes, decoded) is Ok,
        key.len() == 32,
    ensures
        (flag_set(input_flags, CONFIG_ACCESS_ENABLED) != flag_set(output_flags, CONFIG_ACCESS_ENABLED)
            || flag_set(input_flags, CONFIG_ACCESS_WHITELIST) != flag_set(output_flags, CONFIG_ACCESS_WHITELIST))
            ==> !token_cells_present(tx, hash, codes.udt@),
        flag_set(input_flags, CONFIG_ACCESS_ENABLED) && !flag_set(output_flags, CONFIG_ACCESS_ENABLED)
            && !flag_set(output_flags, CONFIG_ACCESS_WHITELIST)
            ==> full_domain_of(tx.inputs@, decoded.inputs@, hash, codes.access_list@) == Ok::<bool, Error>(true)
                && list_cell_holds(tx.inputs@, decoded.inputs@, hash, codes.access_list@, key),
        !flag_set(input_flags, CONFIG_ACCESS_ENABLED) && !flag_set(input_flags, CONFIG_ACCESS_WHITELIST)
            && flag_set(output_flags, CONFIG_ACCESS_ENABLED)
            ==> full_domain_of(tx.outputs@, decoded.outputs@, hash, codes.access_list@) == Ok::<bool, Error>(true)
                && list_cell_holds(tx.outputs@, decoded.outputs@, hash, codes.access_list@, key),
        flag_set(input_flags, CONFIG_ACCESS_ENABLED) && flag_set(output_flags, CONFIG_ACCESS_ENABLED)
            && flag_set(input_flags, CONFIG_ACCESS_WHITELIST) != flag_set(output_flags, CONFIG_ACCESS_WHITELIST)
            ==> list_cell_holds(tx.inputs@, decoded.inputs@, hash, codes.access_list@, key)
                && list_cell_holds(tx.outputs@, decoded.outputs@, hash, codes.access_list@, key),
{
    let inputs = full_domain_of(tx.inputs@, decoded.inputs@, hash, codes.access_list@);
    let outputs = full_domain_of(tx.outputs@, decoded.outputs@, hash, codes.access_list@);
    if inputs == Ok::<bool, Error>(true) {
        lemma_full_domain_of_holds_every_key(tx.inputs@, decoded.inputs@, hash, codes.access_list@, key);
    }
    if outputs == Ok::<bool, Error>(true) {
        lemma_full_domain_of_holds_every_key(tx.outputs@, decoded.outputs@, hash, codes.access_list@, key);
    }
}

/// The same of a whole metadata update: an accepted update that turns access control off has
/// the consumed AccessList cells cover every key, one that turns it on has the produced ones
/// cover every key, and one that switches list modes has both.
pub proof fn lemma_update_access_mode_change_needs_full_list(
    tx: TxView,
    input: XudtMeta,
    output: XudtMeta,
    hash: Seq<u8>,
    codes: CodeHashes,
    supply_after_delta: Result<u128, ScriptError>,
    checks: AuthorityChecks,
    decoded: DecodedRanges,
    key: Seq<u8>,
)
    requires
        update_outcome(tx, input, output, hash, codes, supply_after_delta, checks, decoded) is Ok,
        key.len() == 32,
    ensures
        flag_set(input.config_flags, CONFIG_ACCESS_ENABLED) && !flag_set(output.config_flags, CONFIG_ACCESS_ENABLED)
            && !flag_set(output.config_flags, CONFIG_ACCESS_WHITELIST)
            ==> list_cell_holds(tx.inputs@, decoded.inputs@, hash, codes.access_list@, key),
        !flag_set(input.config_flags, CONFIG_ACCESS_ENABLED) && !flag_set(input.config_flags, CONFIG_ACCESS_WHITELIST)
            && flag_set(output.config_flags, CONFIG_ACCESS_ENABLED)
            ==> list_cell_holds(tx.outputs@, decoded.outputs@, hash, codes.access_list@, key),
        flag_set(input.config_flags, CONFIG_ACCESS_ENABLED) && flag_set(output.config_flags, CONFIG_ACCESS_ENABLED)
            && flag_set(input.config_flags, CONFIG_ACCESS_WHITELIST) != flag_set(output.config_flags, CONFIG_ACCESS_WHITELIST)
            ==> list_cell_holds(tx.inputs@, decoded.inputs@, hash, codes.access_list@, key)
                && list_cell_holds(tx.outputs@, decoded.outputs@, hash, codes.access_list@, key),
{
    lemma_access_mode_change_needs_full_list(tx, input.config_flags, output.config_flags, hash, codes, decoded, key);
}

/// The input metadata's authorities guard an accepted update: a change of supply or of the mint
/// authority, and a change of extensions, had the mint authority present with its check passed;
/// a change of access state had the access authority or the mint authority present with its
/// check passed; a change of the metadata fields, and an update that changes nothing, had the
/// metadata authority or the mint authority present with its check passed.
pub proof fn lemma_update_authorized(
    tx: TxView,
    input: XudtMeta,
    output: XudtMeta,
    hash: Seq<u8>,
    codes: CodeHashes,
    supply_after_delta: Result<u128, ScriptError>,
    checks: AuthorityChecks,
    decoded: DecodedRanges,
)
    requires
        update_outcome(tx, input, output, hash, codes, supply_after_delta, checks, decoded) is Ok,
    ensures
        input.current_supply != output.current_supply || auth_opt_v(input.mint_authority) != auth_opt_v(output.mint_authority)
            || extensions_v(input.extensions@) != extensions_v(output.extensions@)
            ==> input.mint_authority is Some && checks.mint.passed == Ok::<bool, ScriptError>(true),
        access_state_changed(input, output) ==> (input.access_authority is Some && checks.access.passed == Ok::<bool, ScriptError>(true))
            || (input.mint_authority is Some && checks.mint.passed == Ok::<bool, ScriptError>(true)),
        metadata_changed(input, output) || unchanged(input, output)
            ==> (input.metadata_authority is Some && checks.metadata.passed == Ok::<bool, ScriptError>(true))
                || (input.mint_authority is Some && checks.mint.passed == Ok::<bool, ScriptError>(true)),
{
}

} // verus!
