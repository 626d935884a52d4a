//! Enhanced xUDT metadata: the rules for updating a metadata cell.
use vstd::prelude::*;
use crate::bytes::bytes_eq;
use crate::chain::{bound_cell, CodeHashes, has_lock_hash, has_type_hash, lock_hash_is, type_hash_is, TxView};
use crate::config::{flag_set, CONFIG_ACCESS_ENABLED, CONFIG_ACCESS_WHITELIST, CONFIG_PAUSED, CONFIG_SUPPLY_TRACKED};
use crate::enhanced_xudt_meta::error::Error;
use crate::enhanced_xudt_meta::meta_cell::{
    access_enabled, attr_opt_v, full_shard_upto, has_full_domain_access_list_shards,
    has_legal_access_list_shard, has_same_token_cells, is_supply_tracked, legal_shard_upto, paused,
    whitelist_mode, ScriptAttr, ScriptAttrV, XudtMeta, XudtMetaV,
};

verus! {

/// Whether an authority authorizes the transaction: an input lock, an input type or an output
/// type with its hash; dynamic linking and spawn authorities fail here.
pub open spec fn authority_check(tx: TxView, a: ScriptAttrV) -> Result<bool, Error> {
    if a.location == 0 {
        Ok(exists|i: int| 0 <= i < tx.inputs@.len() && lock_hash_is(#[trigger] tx.inputs@[i], a.script_hash))
    } else if a.location == 1 {
        Ok(exists|i: int| 0 <= i < tx.inputs@.len() && type_hash_is(#[trigger] tx.inputs@[i], a.script_hash))
    } else if a.location == 2 {
        Ok(exists|i: int| 0 <= i < tx.outputs@.len() && type_hash_is(#[trigger] tx.outputs@[i], a.script_hash))
    } else if a.location == 3 || a.location == 4 {
        Err(Error::AuthorityFailed)
    } else {
        Err(Error::InvalidMetaData)
    }
}

/// An authority is present and authorizes the transaction.
pub open spec fn authority_required(tx: TxView, a: Option<ScriptAttrV>) -> Result<(), Error> {
    match a {
        None => Err(Error::AuthorityMissing),
        Some(a) => match authority_check(tx, a) {
            Ok(true) => Ok(()),
            Ok(false) => Err(Error::AuthorityFailed),
            Err(e) => Err(e),
        },
    }
}

/// Some input or output is a token cell bound to this metadata.
pub open spec fn token_cells_present(tx: TxView, hash: Seq<u8>, codes: CodeHashes) -> bool {
    (exists|i: int| 0 <= i < tx.inputs@.len() && bound_cell(#[trigger] tx.inputs@[i], hash, codes.udt@))
        || (exists|i: int| 0 <= i < tx.outputs@.len() && bound_cell(#[trigger] tx.outputs@[i], hash, codes.udt@))
}

/// The AccessList a search found: required but missing, or a shard that does not parse.
pub open spec fn shard_found(found: Option<bool>) -> Result<(), Error> {
    match found {
        None => Err(Error::InvalidMetaData),
        Some(false) => Err(Error::AccessListRequired),
        Some(true) => Ok(()),
    }
}

/// The outcome of an access-mode change: no token cells may move in the same transaction;
/// switching to blacklist needs a full-domain empty shard, switching to whitelist needs a shard.
pub open spec fn transition_outcome(tx: TxView, input_flags: u8, output_flags: u8, hash: Seq<u8>, codes: CodeHashes) -> Result<(), Error> {
    let ie = flag_set(input_flags, CONFIG_ACCESS_ENABLED);
    let iw = flag_set(input_flags, CONFIG_ACCESS_WHITELIST);
    let oe = flag_set(output_flags, CONFIG_ACCESS_ENABLED);
    let ow = flag_set(output_flags, CONFIG_ACCESS_WHITELIST);
    if ie == oe && iw == ow {
        Ok(())
    } else if token_cells_present(tx, hash, codes) {
        Err(Error::AccessModeTokenCells)
    } else if (!ie && !iw && oe && !ow) || (ie && iw && oe && !ow) {
        shard_found(full_shard_upto(tx.outputs@, hash, codes, tx.outputs@.len()))
    } else if (!ie && !iw && oe && ow) || (ie && !iw && oe && ow) {
        shard_found(legal_shard_upto(tx.outputs@, hash, codes, tx.outputs@.len()))
    } else {
        Ok(())
    }
}

/// The access state (mode, pause, access authority) differs between the two metadata.
pub open spec fn access_state_changed(input: XudtMetaV, output: XudtMetaV) -> bool {
    flag_set(input.config_flags, CONFIG_ACCESS_ENABLED) != flag_set(output.config_flags, CONFIG_ACCESS_ENABLED)
        || flag_set(input.config_flags, CONFIG_ACCESS_WHITELIST) != flag_set(output.config_flags, CONFIG_ACCESS_WHITELIST)
        || flag_set(input.config_flags, CONFIG_PAUSED) != flag_set(output.config_flags, CONFIG_PAUSED)
        || input.access_authority_raw != output.access_authority_raw
}

/// The outcome of an update: the supply mode is fixed; untracked supply stays zero; the access
/// authority must authorize access-state changes; the mint authority extension changes and
/// supply or mint-authority changes; the metadata authority metadata changes; and the access
/// mode transition must hold.
pub open spec fn update_outcome(tx: TxView, input: XudtMetaV, output: XudtMetaV, hash: Seq<u8>, codes: CodeHashes) -> Result<(), Error> {
    if flag_set(input.config_flags, CONFIG_SUPPLY_TRACKED) != flag_set(output.config_flags, CONFIG_SUPPLY_TRACKED) {
        Err(Error::ImmutableSupplyMode)
    } else if !flag_set(output.config_flags, CONFIG_SUPPLY_TRACKED) && output.current_supply != 0 {
        Err(Error::InvalidSupply)
    } else {
        let access = if access_state_changed(input, output) {
            authority_required(tx, input.access_authority)
        } else if input.access_authority is None && output.access_authority is Some {
            Err(Error::AuthorityMissing)
        } else {
            Ok(())
        };
        let extensions = if input.extensions_raw != output.extensions_raw {
            authority_required(tx, input.mint_authority)
        } else {
            Ok(())
        };
        let metadata = if input.metadata_fields != output.metadata_fields
            || input.metadata_authority_raw != output.metadata_authority_raw {
            authority_required(tx, input.metadata_authority)
        } else if input.metadata_authority is None && output.metadata_authority is Some {
            Err(Error::AuthorityMissing)
        } else {
            Ok(())
        };
        let supply = if input.current_supply != output.current_supply
            || input.mint_authority_raw != output.mint_authority_raw {
            authority_required(tx, input.mint_authority)
        } else if input.mint_authority is None && output.mint_authority is Some {
            Err(Error::AuthorityMissing)
        } else {
            Ok(())
        };
        if access is Err {
            access
        } else if extensions is Err {
            extensions
        } else if metadata is Err {
            metadata
        } else if supply is Err {
            supply
        } else {
            transition_outcome(tx, input.config_flags, output.config_flags, hash, codes)
        }
    }
}

proof fn lemma_flag_bit_eq(a: u8, b: u8)
    ensures
        (a & 1u8 != b & 1u8) == ((a & 1u8 != 0) != (b & 1u8 != 0)),
{
    assert((a & 1u8 != b & 1u8) == ((a & 1u8 != 0) != (b & 1u8 != 0))) by (bit_vector);
}

/// Checks an update of the metadata cell.
pub fn validate_update(
    tx: &TxView,
    input: &XudtMeta,
    output: &XudtMeta,
    meta_type_hash: &[u8; 32],
    codes: &CodeHashes,
) -> (r: Result<(), Error>)
    ensures
        r == update_outcome(*tx, input@, output@, meta_type_hash@, *codes),
{
    proof {
        lemma_flag_bit_eq(input.config_flags, output.config_flags);
    }
    if input.config_flags & CONFIG_SUPPLY_TRACKED != output.config_flags & CONFIG_SUPPLY_TRACKED {
        return Err(Error::ImmutableSupplyMode);
    }

    if !is_supply_tracked(output.config_flags) && output.current_supply != 0 {
        return Err(Error::InvalidSupply);
    }

    let access_changed = access_enabled(input.config_flags) != access_enabled(output.config_flags)
        || whitelist_mode(input.config_flags) != whitelist_mode(output.config_flags)
        || paused(input.config_flags) != paused(output.config_flags)
        || !bytes_eq(input.access_authority_raw.as_slice(), output.access_authority_raw.as_slice());
    if access_changed {
        require_authority(tx, &input.access_authority)?;
    } else if input.access_authority.is_none() && output.access_authority.is_some() {
        return Err(Error::AuthorityMissing);
    }

    if !bytes_eq(input.extensions_raw.as_slice(), output.extensions_raw.as_slice()) {
        require_authority(tx, &input.mint_authority)?;
    }

    if !bytes_eq(input.metadata_fields.as_slice(), output.metadata_fields.as_slice())
        || !bytes_eq(input.metadata_authority_raw.as_slice(), output.metadata_authority_raw.as_slice()) {
        require_authority(tx, &input.metadata_authority)?;
    } else if input.metadata_authority.is_none() && output.metadata_authority.is_some() {
        return Err(Error::AuthorityMissing);
    }

    if input.current_supply != output.current_supply
        || !bytes_eq(input.mint_authority_raw.as_slice(), output.mint_authority_raw.as_slice()) {
        require_authority(tx, &input.mint_authority)?;
    } else if input.mint_authority.is_none() && output.mint_authority.is_some() {
        return Err(Error::AuthorityMissing);
    }

    validate_access_mode_transition(tx, input.config_flags, output.config_flags, meta_type_hash, codes)?;

    Ok(())
}

/// Checks a change of access mode.
pub fn validate_access_mode_transition(
    tx: &TxView,
    input_flags: u8,
    output_flags: u8,
    meta_type_hash: &[u8; 32],
    codes: &CodeHashes,
) -> (r: Result<(), Error>)
    ensures
        r == transition_outcome(*tx, input_flags, output_flags, meta_type_hash@, *codes),
{
    let input_enabled = access_enabled(input_flags);
    let output_enabled = access_enabled(output_flags);
    let input_whitelist = whitelist_mode(input_flags);
    let output_whitelist = whitelist_mode(output_flags);

    if input_enabled == output_enabled && input_whitelist == output_whitelist {
        return Ok(());
    }

    if has_same_token_cells(tx, meta_type_hash, codes) {
        return Err(Error::AccessModeTokenCells);
    }

    match (input_enabled, input_whitelist, output_enabled, output_whitelist) {
        (false, false, true, false) | (true, true, true, false) => {
            if !has_full_domain_access_list_shards(tx, meta_type_hash, codes)? {
                return Err(Error::AccessListRequired);
            }
        },
        (false, false, true, true) | (true, false, true, true) => {
            if !has_legal_access_list_shard(tx, meta_type_hash, codes)? {
                return Err(Error::AccessListRequired);
            }
        },
        _ => {},
    }

    Ok(())
}

/// The authority must be present and authorize the transaction.
pub fn require_authority(tx: &TxView, authority: &Option<ScriptAttr>) -> (r: Result<(), Error>)
    ensures
        r == authority_required(*tx, attr_opt_v(*authority)),
{
    let authority = match authority {
        Some(a) => a,
        None => return Err(Error::AuthorityMissing),
    };
    match check_authority(tx, authority) {
        Ok(true) => Ok(()),
        Ok(false) => Err(Error::AuthorityFailed),
        Err(error) => Err(error),
    }
}

/// Whether an authority authorizes the transaction.
pub fn check_authority(tx: &TxView, authority: &ScriptAttr) -> (r: Result<bool, Error>)
    ensures
        r == authority_check(*tx, authority@),
{
    let location = authority.location;
    if location == 0 {
        Ok(has_input_lock_hash(tx, &authority.script_hash))
    } else if location == 1 {
        Ok(has_type_hash(&tx.inputs, &authority.script_hash))
    } else if location == 2 {
        Ok(has_type_hash(&tx.outputs, &authority.script_hash))
    } else if location == 3 || location == 4 {
        Err(Error::AuthorityFailed)
    } else {
        Err(Error::InvalidMetaData)
    }
}

/// Whether some input is locked by the script with this hash.
pub fn has_input_lock_hash(tx: &TxView, target: &[u8; 32]) -> (r: bool)
    ensures
        r == exists|i: int| 0 <= i < tx.inputs@.len() && lock_hash_is(#[trigger] tx.inputs@[i], target@),
{
    has_lock_hash(&tx.inputs, target)
}

/// Supply tracking is fixed at creation: an update that turns it on or off is refused.
pub proof fn lemma_supply_mode_immutable(tx: TxView, input: XudtMetaV, output: XudtMetaV, hash: Seq<u8>, codes: CodeHashes)
    requires
        flag_set(input.config_flags, CONFIG_SUPPLY_TRACKED) != flag_set(output.config_flags, CONFIG_SUPPLY_TRACKED),
    ensures
        update_outcome(tx, input, output, hash, codes) == Err::<(), Error>(Error::ImmutableSupplyMode),
{
}

/// Without a mint authority the supply is fixed: no accepted update changes it, nor the mint
/// authority, nor the extensions.
pub proof fn lemma_no_mint_authority_fixes_supply(tx: TxView, input: XudtMetaV, output: XudtMetaV, hash: Seq<u8>, codes: CodeHashes)
    requires
        input.mint_authority is None,
        update_outcome(tx, input, output, hash, codes) is Ok,
    ensures
        output.current_supply == input.current_supply,
        output.mint_authority_raw == input.mint_authority_raw,
        output.extensions_raw == input.extensions_raw,
{
}

/// An accepted update that changes the access mode moves no token cell of this metadata.
pub proof fn lemma_mode_change_moves_no_tokens(tx: TxView, input: XudtMetaV, output: XudtMetaV, hash: Seq<u8>, codes: CodeHashes)
    requires
        flag_set(input.config_flags, CONFIG_ACCESS_ENABLED) != flag_set(output.config_flags, CONFIG_ACCESS_ENABLED)
            || flag_set(input.config_flags, CONFIG_ACCESS_WHITELIST) != flag_set(output.config_flags, CONFIG_ACCESS_WHITELIST),
        update_outcome(tx, input, output, hash, codes) is Ok,
    ensures
        !token_cells_present(tx, hash, codes),
{
}

/// An update that leaves the metadata as it was needs no authority (an untracked supply being
/// zero).
pub proof fn lemma_unchanged_update_accepted(tx: TxView, meta: XudtMetaV, hash: Seq<u8>, codes: CodeHashes)
    requires
        !flag_set(meta.config_flags, CONFIG_SUPPLY_TRACKED) ==> meta.current_supply == 0,
    ensures
        update_outcome(tx, meta, meta, hash, codes) == Ok::<(), Error>(()),
{
}

/// The authority names a cell the transaction carries: an input whose lock hash is the
/// authority's script hash (location `0`), an input whose type hash is (location `1`), or an
/// output whose type hash is (location `2`).
pub open spec fn named_cell_present(tx: TxView, a: ScriptAttrV) -> bool {
    ||| a.location == 0 && exists|i: int| 0 <= i < tx.inputs@.len() && lock_hash_is(#[trigger] tx.inputs@[i], a.script_hash)
    ||| a.location == 1 && exists|i: int| 0 <= i < tx.inputs@.len() && type_hash_is(#[trigger] tx.inputs@[i], a.script_hash)
    ||| a.location == 2 && exists|i: int| 0 <= i < tx.outputs@.len() && type_hash_is(#[trigger] tx.outputs@[i], a.script_hash)
}

/// The consumed metadata's authorities guard an accepted update, each present and naming a cell
/// the transaction carries: the access authority for a change of access state, the mint
/// authority for a change of extensions, of supply or of the mint authority, and the metadata
/// authority for a change of the metadata fields or of the metadata authority.
pub proof fn lemma_update_authorized(tx: TxView, input: XudtMetaV, output: XudtMetaV, hash: Seq<u8>, codes: CodeHashes)
    requires
        update_outcome(tx, input, output, hash, codes) is Ok,
    ensures
        access_state_changed(input, output) ==> (input.access_authority matches Some(a) && named_cell_present(tx, a)),
        input.extensions_raw != output.extensions_raw || input.current_supply != output.current_supply
            || input.mint_authority_raw != output.mint_authority_raw
            ==> (input.mint_authority matches Some(a) && named_cell_present(tx, a)),
        input.metadata_fields != output.metadata_fields || input.metadata_authority_raw != output.metadata_authority_raw
            ==> (input.metadata_authority matches Some(a) && named_cell_present(tx, a)),
{
}

} // verus!
