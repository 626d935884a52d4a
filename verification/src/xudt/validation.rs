//! The xUDT token flows: transfer, mint, protocol burn and user destruction, each against the
//! metadata that governs it.
use vstd::prelude::*;
use crate::chain::{Source, TxView};
use crate::config::{flag_set, CONFIG_ACCESS_ENABLED, CONFIG_ACCESS_WHITELIST, CONFIG_PAUSED, CONFIG_SUPPLY_TRACKED};
use crate::sys::ScriptError;
use crate::types::{checks_authority, AuthorityCheck, XudtMeta};
use crate::xudt::access::{
    access_outcome, held_and_listed, lemma_admitted_holders, lemma_admitted_receivers, shard_index_of, shards_sorted, validate_if_enabled,
    CheckedLocks,
};
use crate::xudt::error::Error;
use crate::xudt::extensions::{extensions_outcome, run_extensions};
use crate::xudt::meta::{
    authority_required, current_meta_of, find_meta_in_source, found_v, meta_in, require_authority, CurrentMeta,
    ParsedXudtMeta, ParsedXudtMetaV,
};

verus! {

/// What a token flow is.
#[derive(Clone, Copy, Debug, PartialEq, Eq, Structural)]
pub enum Operation {
    Transfer,
    Mint,
    ProtocolBurn,
}

impl Operation {
    /// The code an extension receives for the flow.
    pub open spec fn code_of(self) -> u8 {
        match self {
            Self::Transfer => 0,
            Self::Mint => 1,
            Self::ProtocolBurn => 2,
        }
    }

    /// The code an extension receives for the flow.
    pub fn code(self) -> (r: u8)
        ensures
            r == self.code_of(),
    {
        match self {
            Self::Transfer => 0,
            Self::Mint => 1,
            Self::ProtocolBurn => 2,
        }
    }
}

/// What the token script learns from outside its own logic: the metadata each cell of the
/// inputs, outputs and cell deps decodes to (`None` where it does not), the AccessList entries
/// each cell dep decodes to, the type hash of the AccessList script bound to the metadata, what
/// checking the governing metadata's mint authority reported, and what running each executed
/// extension gave.
pub struct TokenContext {
    pub input_metas: Vec<Option<XudtMeta>>,
    pub output_metas: Vec<Option<XudtMeta>>,
    pub dep_metas: Vec<Option<XudtMeta>>,
    pub dep_shards: Vec<Option<Vec<[u8; 32]>>>,
    pub access_list_type_hash: [u8; 32],
    pub mint_check: AuthorityCheck,
    pub extension_runs: Vec<Result<(), Error>>,
}

/// The context matches the transaction: one decoding per cell, sorted shard entries, and the
/// mint check is of the governing metadata's mint authority.
pub open spec fn context_fits(tx: TxView, ctx: TokenContext) -> bool {
    &&& ctx.input_metas@.len() == tx.inputs@.len()
    &&& ctx.output_metas@.len() == tx.outputs@.len()
    &&& ctx.dep_metas@.len() == tx.cell_deps@.len()
    &&& ctx.dep_shards@.len() == tx.cell_deps@.len()
    &&& shards_sorted(ctx.dep_shards@)
    &&& current_meta_of(tx, ctx.dep_metas@, ctx.input_metas@, tx.script_args@) matches Ok(Some(found))
        ==> checks_authority(ctx.mint_check, found.0.mint_authority)
}

/// The access check of a flow under the metadata: nothing when access control is off.
pub open spec fn access_check(tx: TxView, m: ParsedXudtMetaV, ctx: TokenContext, checked: CheckedLocks) -> Result<(), Error> {
    if flag_set(m.config_flags, CONFIG_ACCESS_ENABLED) {
        access_outcome(tx, ctx.access_list_type_hash@, ctx.dep_shards@, flag_set(m.config_flags, CONFIG_ACCESS_WHITELIST), checked)
    } else {
        Ok(())
    }
}

/// The extensions check of a flow, whose runs are what `ctx` reports.
pub open spec fn extension_check(tx: TxView, m: ParsedXudtMetaV, ctx: TokenContext) -> Result<(), Error> {
    if ctx.extension_runs@.len() != m.extensions.len() {
        Err(Error::ExtensionFailed)
    } else {
        extensions_outcome(tx, m.extensions, ctx.extension_runs@)
    }
}

/// A transfer: refused while paused; the checked holders of inputs and outputs must pass the
/// access check, and the extensions must accept.
pub open spec fn transfer_outcome(tx: TxView, m: ParsedXudtMetaV, ctx: TokenContext) -> Result<(), Error> {
    if flag_set(m.config_flags, CONFIG_PAUSED) {
        Err(Error::MetaStateMismatch)
    } else {
        match access_check(tx, m, ctx, CheckedLocks::InputsAndOutputs) {
            Err(e) => Err(e),
            Ok(()) => extension_check(tx, m, ctx),
        }
    }
}

/// A mint: refused while paused; a tracked supply needs the metadata as an input (where the
/// metadata script checks the supply), an untracked one the mint authority; the output holders
/// must pass the access check, and the extensions must accept.
pub open spec fn mint_outcome(tx: TxView, m: ParsedXudtMetaV, source: Source, ctx: TokenContext) -> Result<(), Error> {
    if flag_set(m.config_flags, CONFIG_PAUSED) {
        Err(Error::MetaStateMismatch)
    } else {
        let authority = if flag_set(m.config_flags, CONFIG_SUPPLY_TRACKED) {
            if source != Source::Input {
                Err(Error::MetaInputMissing)
            } else {
                Ok(())
            }
        } else {
            authority_required(m.mint_authority, ctx.mint_check.passed)
        };
        match authority {
            Err(e) => Err(e),
            Ok(()) => match access_check(tx, m, ctx, CheckedLocks::Outputs) {
                Err(e) => Err(e),
                Ok(()) => extension_check(tx, m, ctx),
            },
        }
    }
}

/// A protocol burn: the holders of inputs and outputs must pass the access check, and the
/// extensions must accept.
pub open spec fn burn_outcome(tx: TxView, m: ParsedXudtMetaV, ctx: TokenContext) -> Result<(), Error> {
    match access_check(tx, m, ctx, CheckedLocks::InputsAndOutputs) {
        Err(e) => Err(e),
        Ok(()) => extension_check(tx, m, ctx),
    }
}

/// A decrease of the token amount: with tracked metadata among the inputs it is a protocol
/// burn; otherwise destroying every token cell is allowed, and a partial decrease is a transfer
/// under the input metadata, or else the metadata of the cell deps.
pub open spec fn negative_delta_outcome(tx: TxView, hash: Seq<u8>, output_amount: u128, ctx: TokenContext) -> Result<(), Error> {
    match meta_in(tx.inputs@, ctx.input_metas@, hash) {
        Err(e) => Err(e),
        Ok(Some(m)) => if flag_set(m.config_flags, CONFIG_SUPPLY_TRACKED) {
            burn_outcome(tx, m, ctx)
        } else if output_amount == 0 {
            Ok(())
        } else {
            transfer_outcome(tx, m, ctx)
        },
        Ok(None) => if output_amount == 0 {
            Ok(())
        } else {
            match meta_in(tx.cell_deps@, ctx.dep_metas@, hash) {
                Err(e) => Err(e),
                Ok(None) => Err(Error::MetaMissing),
                Ok(Some(m)) => transfer_outcome(tx, m, ctx),
            }
        },
    }
}

/// Checks a decrease of the token amount.
pub fn validate_negative_delta(tx: &TxView, meta_type_hash: &[u8; 32], output_amount: u128, ctx: &TokenContext) -> (r: Result<(), Error>)
    requires
        context_fits(*tx, *ctx),
    ensures
        r == negative_delta_outcome(*tx, meta_type_hash@, output_amount, *ctx),
{
    match find_meta_in_source(tx, meta_type_hash, Source::Input, &ctx.input_metas)? {
        Some(input_meta) => {
            if input_meta.is_supply_tracked() {
                validate_protocol_burn(tx, &input_meta, ctx)
            } else if output_amount == 0 {
                Ok(())
            } else {
                validate_transfer(tx, &input_meta, ctx)
            }
        },
        None => {
            if output_amount == 0 {
                return Ok(());
            }
            match find_meta_in_source(tx, meta_type_hash, Source::CellDep, &ctx.dep_metas)? {
                Some(current_meta) => validate_transfer(tx, &current_meta, ctx),
                None => Err(Error::MetaMissing),
            }
        },
    }
}

/// Runs the metadata's extensions for a flow; the runs reported must be one per extension.
fn check_extensions(tx: &TxView, operation: Operation, meta: &ParsedXudtMeta, context: Option<bool>, ctx: &TokenContext) -> (r: Result<(), Error>)
    ensures
        r == extension_check(*tx, meta@, *ctx),
{
    if ctx.extension_runs.len() != meta.extensions.len() {
        return Err(Error::ExtensionFailed);
    }
    run_extensions(tx, operation, &meta.extensions, context, &ctx.extension_runs)
}

/// Checks a transfer.
pub fn validate_transfer(tx: &TxView, current_meta: &ParsedXudtMeta, ctx: &TokenContext) -> (r: Result<(), Error>)
    requires
        context_fits(*tx, *ctx),
    ensures
        r == transfer_outcome(*tx, current_meta@, *ctx),
{
    if current_meta.is_paused() {
        return Err(Error::MetaStateMismatch);
    }
    validate_if_enabled(tx, current_meta, CheckedLocks::InputsAndOutputs, &ctx.access_list_type_hash, &ctx.dep_shards)?;
    check_extensions(tx, Operation::Transfer, current_meta, None, ctx)
}

/// Checks a mint under the metadata found, and where.
pub fn validate_mint(tx: &TxView, current_meta: &CurrentMeta, ctx: &TokenContext) -> (r: Result<(), Error>)
    requires
        context_fits(*tx, *ctx),
    ensures
        r == mint_outcome(*tx, current_meta.meta@, current_meta.source, *ctx),
{
    let meta = &current_meta.meta;
    if meta.is_paused() {
        return Err(Error::MetaStateMismatch);
    }
    if meta.is_supply_tracked() {
        if current_meta.source != Source::Input {
            return Err(Error::MetaInputMissing);
        }
    } else {
        require_authority(&meta.mint_authority, ctx.mint_check.passed)?;
    }
    validate_if_enabled(tx, meta, CheckedLocks::Outputs, &ctx.access_list_type_hash, &ctx.dep_shards)?;
    check_extensions(tx, Operation::Mint, meta, Some(true), ctx)
}

/// The first mint needs the metadata being created among the outputs.
pub fn require_initial_mint_output_meta(tx: &TxView, meta_type_hash: &[u8; 32], ctx: &TokenContext) -> (r: Result<(), Error>)
    requires
        context_fits(*tx, *ctx),
    ensures
        r == (match meta_in(tx.outputs@, ctx.output_metas@, meta_type_hash@) {
            Err(e) => Err(e),
            Ok(None) => Err(Error::MetaMissing),
            Ok(Some(_)) => Ok::<(), Error>(()),
        }),
{
    match find_meta_in_source(tx, meta_type_hash, Source::Output, &ctx.output_metas)? {
        Some(_) => Ok(()),
        None => Err(Error::MetaMissing),
    }
}

/// Checks a protocol burn under the input metadata.
pub fn validate_protocol_burn(tx: &TxView, input_meta: &ParsedXudtMeta, ctx: &TokenContext) -> (r: Result<(), Error>)
    requires
        context_fits(*tx, *ctx),
    ensures
        r == burn_outcome(*tx, input_meta@, *ctx),
{
    validate_if_enabled(tx, input_meta, CheckedLocks::InputsAndOutputs, &ctx.access_list_type_hash, &ctx.dep_shards)?;
    check_extensions(tx, Operation::ProtocolBurn, input_meta, None, ctx)
}

/// With access control on, an accepted transfer admits the holders on both sides: the cell
/// deps' shard index builds, and the lock hash of every group input (the senders) and of every
/// group output (the receivers) lies in a shard's range and is listed by that shard in a
/// whitelist, not listed in a blacklist.
pub proof fn lemma_transfer_admits_senders_and_receivers(tx: TxView, m: ParsedXudtMetaV, ctx: TokenContext)
    requires
        transfer_outcome(tx, m, ctx) is Ok,
        flag_set(m.config_flags, CONFIG_ACCESS_ENABLED),
    ensures
        shard_index_of(tx, ctx.access_list_type_hash@) matches Ok(idx)
            && (forall|i: int| 0 <= i < tx.group_inputs@.len() ==> #[trigger] held_and_listed(
                idx,
                ctx.dep_shards@,
                tx.group_inputs@[i].lock_hash@,
                flag_set(m.config_flags, CONFIG_ACCESS_WHITELIST),
            ))
            && (forall|i: int| 0 <= i < tx.group_outputs@.len() ==> #[trigger] held_and_listed(
                idx,
                ctx.dep_shards@,
                tx.group_outputs@[i].lock_hash@,
                flag_set(m.config_flags, CONFIG_ACCESS_WHITELIST),
            )),
{
    lemma_admitted_holders(tx, ctx.access_list_type_hash@, ctx.dep_shards@, flag_set(m.config_flags, CONFIG_ACCESS_WHITELIST));
}

/// With access control on, an accepted protocol burn admits the holders on both sides: the
/// lock hash of every group input (whose tokens are burned) and of every group output lies in a
/// shard's range and is listed by that shard in a whitelist, not listed in a blacklist.
pub proof fn lemma_burn_admits_senders_and_receivers(tx: TxView, m: ParsedXudtMetaV, ctx: TokenContext)
    requires
        burn_outcome(tx, m, ctx) is Ok,
        flag_set(m.config_flags, CONFIG_ACCESS_ENABLED),
    ensures
        shard_index_of(tx, ctx.access_list_type_hash@) matches Ok(idx)
            && (forall|i: int| 0 <= i < tx.group_inputs@.len() ==> #[trigger] held_and_listed(
                idx,
                ctx.dep_shards@,
                tx.group_inputs@[i].lock_hash@,
                flag_set(m.config_flags, CONFIG_ACCESS_WHITELIST),
            ))
            && (forall|i: int| 0 <= i < tx.group_outputs@.len() ==> #[trigger] held_and_listed(
                idx,
                ctx.dep_shards@,
                tx.group_outputs@[i].lock_hash@,
                flag_set(m.config_flags, CONFIG_ACCESS_WHITELIST),
            )),
{
    lemma_admitted_holders(tx, ctx.access_list_type_hash@, ctx.dep_shards@, flag_set(m.config_flags, CONFIG_ACCESS_WHITELIST));
}

/// An accepted mint: the metadata is not paused; a tracked supply is minted only with the
/// metadata among the inputs; an untracked one only with a mint authority whose check passed;
/// and with access control on, every group output holder (the receivers) lies in a shard's
/// range and is listed by that shard in a whitelist, not listed in a blacklist.
pub proof fn lemma_mint_rules(tx: TxView, m: ParsedXudtMetaV, source: Source, ctx: TokenContext)
    requires
        mint_outcome(tx, m, source, ctx) is Ok,
    ensures
        !flag_set(m.config_flags, CONFIG_PAUSED),
        flag_set(m.config_flags, CONFIG_SUPPLY_TRACKED) ==> source == Source::Input,
        !flag_set(m.config_flags, CONFIG_SUPPLY_TRACKED) ==> m.mint_authority is Some && ctx.mint_check.passed == Ok::<bool, ScriptError>(true),
        flag_set(m.config_flags, CONFIG_ACCESS_ENABLED) ==> (shard_index_of(tx, ctx.access_list_type_hash@) matches Ok(idx)
            && (forall|i: int| 0 <= i < tx.group_outputs@.len() ==> #[trigger] held_and_listed(
                idx,
                ctx.dep_shards@,
                tx.group_outputs@[i].lock_hash@,
                flag_set(m.config_flags, CONFIG_ACCESS_WHITELIST),
            ))),
{
    if flag_set(m.config_flags, CONFIG_ACCESS_ENABLED) {
        lemma_admitted_receivers(tx, ctx.access_list_type_hash@, ctx.dep_shards@, flag_set(m.config_flags, CONFIG_ACCESS_WHITELIST));
    }
}

} // verus!
