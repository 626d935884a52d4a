//! What the sUDT token script reads and decides: its metadata type hash argument, the group's
//! amounts, the metadata that governs the token, and the rules for minting and burning.
use vstd::prelude::*;
use crate::bytes::copy_byte32;
use crate::chain::{type_hash_is, CellView, Source, TxView};
use crate::config::{flag_set, CONFIG_SUPPLY_TRACKED};
use crate::sys::ScriptError;
use crate::types::{auth_opt_v, checks_authority, clone_authority_opt, Authority, AuthorityCheck, AuthorityV, SudtMeta};
use crate::sudt::error::Error;

verus! {

/// The metadata fields the token script uses: flags, supply and mint authority.
pub struct ParsedSudtMeta {
    pub config_flags: u8,
    pub current_supply: u128,
    pub mint_authority: Option<Authority>,
}

/// The value of the metadata fields the token script uses.
pub struct ParsedSudtMetaV {
    pub config_flags: u8,
    pub current_supply: u128,
    pub mint_authority: Option<AuthorityV>,
}

impl View for ParsedSudtMeta {
    type V = ParsedSudtMetaV;

    open spec fn view(&self) -> ParsedSudtMetaV {
        ParsedSudtMetaV {
            config_flags: self.config_flags,
            current_supply: self.current_supply,
            mint_authority: auth_opt_v(self.mint_authority),
        }
    }
}

/// The fields the token script uses of decoded metadata.
pub open spec fn projected(m: SudtMeta) -> ParsedSudtMetaV {
    ParsedSudtMetaV {
        config_flags: m.config_flags,
        current_supply: m.current_supply,
        mint_authority: auth_opt_v(m.mint_authority),
    }
}

/// The metadata found, and the source it was found in.
pub struct CurrentMeta {
    pub meta: ParsedSudtMeta,
    pub source: Source,
}

/// What the token script learns from outside its own logic: the group amounts the shared amount
/// utility reported, the metadata each cell of the inputs, outputs and cell deps decodes to
/// (`None` where it does not), and what checking the governing metadata's mint authority
/// reported.
pub struct SudtContext {
    pub input_amount: Result<u128, ScriptError>,
    pub output_amount: Result<u128, ScriptError>,
    pub input_metas: Vec<Option<SudtMeta>>,
    pub output_metas: Vec<Option<SudtMeta>>,
    pub dep_metas: Vec<Option<SudtMeta>>,
    pub mint_check: AuthorityCheck,
}

/// The context matches the transaction: one decoding per cell, and the mint check is of the
/// governing metadata's mint authority.
pub open spec fn context_fits(tx: TxView, ctx: SudtContext) -> bool {
    &&& ctx.input_metas@.len() == tx.inputs@.len()
    &&& ctx.output_metas@.len() == tx.outputs@.len()
    &&& ctx.dep_metas@.len() == tx.cell_deps@.len()
    &&& current_meta_of(tx, ctx, tx.script_args@) matches Ok(Some(found)) ==> checks_authority(ctx.mint_check, found.0.mint_authority)
}

/// The metadata among the first `n` cells with this type hash: none, the one found, or an
/// error (the first does not decode, or a second one exists).
pub open spec fn meta_in_upto(cells: Seq<CellView>, decoded: Seq<Option<SudtMeta>>, hash: Seq<u8>, n: nat) -> Result<Option<ParsedSudtMetaV>, Error>
    decreases n,
{
    if n == 0 {
        Ok(None)
    } else {
        match meta_in_upto(cells, decoded, hash, (n - 1) as nat) {
            Err(e) => Err(e),
            Ok(found) => if !type_hash_is(cells[n - 1], hash) {
                Ok(found)
            } else if found is Some {
                Err(Error::MetaNotUnique)
            } else {
                match decoded[n - 1] {
                    None => Err(Error::InvalidMetaData),
                    Some(m) => Ok(Some(projected(m))),
                }
            },
        }
    }
}

/// The metadata of a source.
pub open spec fn meta_in(cells: Seq<CellView>, decoded: Seq<Option<SudtMeta>>, hash: Seq<u8>) -> Result<Option<ParsedSudtMetaV>, Error> {
    meta_in_upto(cells, decoded, hash, cells.len())
}

/// The value of a metadata lookup.
pub open spec fn found_v(r: Result<Option<ParsedSudtMeta>, Error>) -> Result<Option<ParsedSudtMetaV>, Error> {
    match r {
        Ok(Some(m)) => Ok(Some(m@)),
        Ok(None) => Ok(None),
        Err(e) => Err(e),
    }
}

/// The metadata that governs the token: that of the cell deps, or else that of the inputs, and
/// where it was found.
pub open spec fn current_meta_of(tx: TxView, ctx: SudtContext, hash: Seq<u8>) -> Result<Option<(ParsedSudtMetaV, Source)>, Error> {
    match meta_in(tx.cell_deps@, ctx.dep_metas@, hash) {
        Err(e) => Err(e),
        Ok(Some(m)) => Ok(Some((m, Source::CellDep))),
        Ok(None) => match meta_in(tx.inputs@, ctx.input_metas@, hash) {
            Err(e) => Err(e),
            Ok(Some(m)) => Ok(Some((m, Source::Input))),
            Ok(None) => Ok(None),
        },
    }
}

/// The error a failed amount sum is reported as.
pub open spec fn amount_error_of(e: ScriptError) -> Error {
    match e {
        ScriptError::AmountEncoding => Error::AmountEncoding,
        ScriptError::AmountOverflow => Error::AmountOverflow,
        _ => Error::SyscallUnknown,
    }
}

/// The error a failed authority check is reported as.
pub open spec fn script_error_of(e: ScriptError) -> Error {
    match e {
        ScriptError::AuthorityFailed => Error::AuthorityFailed,
        ScriptError::UnsupportedAuthorityLocation => Error::UnsupportedAuthorityLocation,
        ScriptError::InvalidAuthority => Error::InvalidMetaData,
        _ => Error::SyscallUnknown,
    }
}

/// An authority is present and its check passed.
pub open spec fn authority_required(a: Option<AuthorityV>, check: Result<bool, ScriptError>) -> Result<(), Error> {
    match a {
        None => Err(Error::AuthorityMissing),
        Some(_) => match check {
            Ok(true) => Ok(()),
            Ok(false) => Err(Error::AuthorityFailed),
            Err(e) => Err(script_error_of(e)),
        },
    }
}

/// The outcome of a mint: the first mint needs the metadata being created among the outputs;
/// under tracked metadata the metadata must be an input (where its script accounts for the
/// supply); under untracked metadata the mint authority must pass and the supply stays zero.
pub open spec fn mint_outcome(tx: TxView, hash: Seq<u8>, ctx: SudtContext) -> Result<(), Error> {
    match current_meta_of(tx, ctx, hash) {
        Err(e) => Err(e),
        Ok(None) => match meta_in(tx.outputs@, ctx.output_metas@, hash) {
            Err(e) => Err(e),
            Ok(None) => Err(Error::MetaMissing),
            Ok(Some(_)) => Ok(()),
        },
        Ok(Some((m, source))) => if flag_set(m.config_flags, CONFIG_SUPPLY_TRACKED) {
            if source != Source::Input {
                Err(Error::MetaInputMissing)
            } else {
                Ok(())
            }
        } else {
            match authority_required(m.mint_authority, ctx.mint_check.passed) {
                Err(e) => Err(e),
                Ok(()) => if m.current_supply != 0 {
                    Err(Error::MetaStateMismatch)
                } else {
                    Ok(())
                },
            }
        },
    }
}

/// The outcome of a decrease: without input metadata it is a destruction; input metadata with
/// untracked supply must hold a zero supply.
pub open spec fn burn_outcome(tx: TxView, hash: Seq<u8>, ctx: SudtContext) -> Result<(), Error> {
    match meta_in(tx.inputs@, ctx.input_metas@, hash) {
        Err(e) => Err(e),
        Ok(None) => Ok(()),
        Ok(Some(m)) => if !flag_set(m.config_flags, CONFIG_SUPPLY_TRACKED) && m.current_supply != 0 {
            Err(Error::MetaStateMismatch)
        } else {
            Ok(())
        },
    }
}

/// The metadata type hash the script's arguments hold: exactly 32 bytes.
pub fn load_meta_type_hash_arg(tx: &TxView) -> (r: Result<[u8; 32], Error>)
    ensures
        match r {
            Ok(h) => tx.script_args@.len() == 32 && h@ == tx.script_args@,
            Err(e) => tx.script_args@.len() != 32 && e == Error::InvalidArgs,
        },
{
    let args = tx.script_args.as_slice();
    if args.len() != 32 {
        return Err(Error::InvalidArgs);
    }
    let h = copy_byte32(args, 0);
    assert(args@.subrange(0, 32) =~= args@);
    Ok(h)
}

/// The group amount of a source, from what the shared amount utility reported for it.
pub fn collect_group_amount(summed: Result<u128, ScriptError>) -> (r: Result<u128, Error>)
    ensures
        r == (match summed {
            Ok(v) => Ok::<u128, Error>(v),
            Err(e) => Err(amount_error_of(e)),
        }),
{
    match summed {
        Ok(v) => Ok(v),
        Err(e) => Err(map_amount_error(e)),
    }
}

/// The error a failed amount sum is reported as.
pub fn map_amount_error(error: ScriptError) -> (r: Error)
    ensures
        r == amount_error_of(error),
{
    match error {
        ScriptError::AmountEncoding => Error::AmountEncoding,
        ScriptError::AmountOverflow => Error::AmountOverflow,
        ScriptError::SyscallUnknown => Error::SyscallUnknown,
        _ => Error::SyscallUnknown,
    }
}

/// Whether the supply-tracking flag is set.
pub fn is_supply_tracked(config_flags: u8) -> (r: bool)
    ensures
        r == flag_set(config_flags, CONFIG_SUPPLY_TRACKED),
{
    config_flags & CONFIG_SUPPLY_TRACKED != 0
}

/// The fields the token script uses of decoded metadata.
pub fn parse_meta(meta: &SudtMeta) -> (r: ParsedSudtMeta)
    ensures
        r@ == projected(*meta),
{
    ParsedSudtMeta {
        config_flags: meta.config_flags,
        current_supply: meta.current_supply,
        mint_authority: clone_authority_opt(&meta.mint_authority),
    }
}

proof fn lemma_meta_err_sticky(cells: Seq<CellView>, decoded: Seq<Option<SudtMeta>>, hash: Seq<u8>, k: nat, m: nat)
    requires
        k <= m,
        meta_in_upto(cells, decoded, hash, k) is Err,
    ensures
        meta_in_upto(cells, decoded, hash, m) == meta_in_upto(cells, decoded, hash, k),
    decreases m - k,
{
    if k < m {
        lemma_meta_err_sticky(cells, decoded, hash, k, (m - 1) as nat);
    }
}

/// The metadata of a source with this type hash; `decoded[i]` is what cell `i`'s data decodes
/// to, `None` where it does not decode.
pub fn find_meta_in_source(
    tx: &TxView,
    meta_type_hash: &[u8; 32],
    source: Source,
    decoded: &Vec<Option<SudtMeta>>,
) -> (r: Result<Option<ParsedSudtMeta>, Error>)
    requires
        decoded@.len() == tx.cells_of(source).len(),
    ensures
        found_v(r) == meta_in(tx.cells_of(source), decoded@, meta_type_hash@),
{
    let cells = tx.cells(source);
    let mut found: Option<ParsedSudtMeta> = None;
    let mut index: usize = 0;
    while index < cells.len()
        invariant
            index <= cells@.len(),
            cells@ == tx.cells_of(source),
            decoded@.len() == cells@.len(),
            meta_in_upto(cells@, decoded@, meta_type_hash@, index as nat) == found_v(Ok(found)),
        decreases cells@.len() - index,
    {
        let hit = match &cells[index].type_hash {
            Some(h) => crate::byte32::byte32_eq(h, meta_type_hash),
            None => false,
        };
        assert(hit == type_hash_is(cells@[index as int], meta_type_hash@));
        if hit {
            if found.is_some() {
                proof {
                    lemma_meta_err_sticky(cells@, decoded@, meta_type_hash@, (index + 1) as nat, cells@.len());
                }
                return Err(Error::MetaNotUnique);
            }
            match &decoded[index] {
                None => {
                    proof {
                        lemma_meta_err_sticky(cells@, decoded@, meta_type_hash@, (index + 1) as nat, cells@.len());
                    }
                    return Err(Error::InvalidMetaData);
                },
                Some(m) => {
                    found = Some(parse_meta(m));
                },
            }
        }
        index = index + 1;
    }
    Ok(found)
}

/// The metadata that governs the token, and where it was found: the cell deps' metadata, or
/// else the inputs'.
pub fn find_current_meta(tx: &TxView, meta_type_hash: &[u8; 32], ctx: &SudtContext) -> (r: Result<Option<CurrentMeta>, Error>)
    requires
        context_fits(*tx, *ctx),
    ensures
        match r {
            Ok(Some(c)) => current_meta_of(*tx, *ctx, meta_type_hash@) == Ok::<Option<(ParsedSudtMetaV, Source)>, Error>(Some((c.meta@, c.source))),
            Ok(None) => current_meta_of(*tx, *ctx, meta_type_hash@) == Ok::<Option<(ParsedSudtMetaV, Source)>, Error>(None),
            Err(e) => current_meta_of(*tx, *ctx, meta_type_hash@) == Err::<Option<(ParsedSudtMetaV, Source)>, Error>(e),
        },
{
    if let Some(meta) = find_meta_in_source(tx, meta_type_hash, Source::CellDep, &ctx.dep_metas)? {
        return Ok(Some(CurrentMeta { meta, source: Source::CellDep }));
    }
    match find_meta_in_source(tx, meta_type_hash, Source::Input, &ctx.input_metas)? {
        Some(meta) => Ok(Some(CurrentMeta { meta, source: Source::Input })),
        None => Ok(None),
    }
}

/// The authority must be present and its check must have passed; `check` is what checking it
/// against the transaction reported.
pub fn require_authority(authority: &Option<Authority>, check: Result<bool, ScriptError>) -> (r: Result<(), Error>)
    ensures
        r == authority_required(auth_opt_v(*authority), check),
{
    if authority.is_none() {
        return Err(Error::AuthorityMissing);
    }
    match check {
        Ok(true) => Ok(()),
        Ok(false) => Err(Error::AuthorityFailed),
        Err(error) => Err(map_script_error(error)),
    }
}

/// The error a failed authority check is reported as.
pub fn map_script_error(error: ScriptError) -> (r: Error)
    ensures
        r == script_error_of(error),
{
    match error {
        ScriptError::AuthorityFailed => Error::AuthorityFailed,
        ScriptError::UnsupportedAuthorityLocation => Error::UnsupportedAuthorityLocation,
        ScriptError::InvalidAuthority => Error::InvalidMetaData,
        ScriptError::SyscallUnknown => Error::SyscallUnknown,
        _ => Error::SyscallUnknown,
    }
}

/// Checks a mint.
pub fn validate_mint(tx: &TxView, meta_type_hash: &[u8; 32], ctx: &SudtContext) -> (r: Result<(), Error>)
    requires
        context_fits(*tx, *ctx),
    ensures
        r == mint_outcome(*tx, meta_type_hash@, *ctx),
{
    let current_meta = match find_current_meta(tx, meta_type_hash, ctx)? {
        Some(c) => c,
        None => return require_initial_mint_output_meta(tx, meta_type_hash, ctx),
    };

    if is_supply_tracked(current_meta.meta.config_flags) {
        if current_meta.source != Source::Input {
            return Err(Error::MetaInputMissing);
        }
    } else {
        require_authority(&current_meta.meta.mint_authority, ctx.mint_check.passed)?;
        if current_meta.meta.current_supply != 0 {
            return Err(Error::MetaStateMismatch);
        }
    }

    Ok(())
}

/// The first mint needs the metadata being created among the outputs.
pub fn require_initial_mint_output_meta(tx: &TxView, meta_type_hash: &[u8; 32], ctx: &SudtContext) -> (r: Result<(), Error>)
    requires
        context_fits(*tx, *ctx),
    ensures
        r == (match meta_in(tx.outputs@, ctx.output_metas@, meta_type_hash@) {
            Err(e) => Err(e),
            Ok(None) => Err(Error::MetaMissing),
            Ok(Some(_)) => Ok::<(), Error>(()),
        }),
{
    match find_meta_in_source(tx, meta_type_hash, Source::Output, &ctx.output_metas)? {
        Some(_) => Ok(()),
        None => Err(Error::MetaMissing),
    }
}

/// Checks a burn or a destruction.
pub fn validate_burn_or_destruction(tx: &TxView, meta_type_hash: &[u8; 32], ctx: &SudtContext) -> (r: Result<(), Error>)
    requires
        context_fits(*tx, *ctx),
    ensures
        r == burn_outcome(*tx, meta_type_hash@, *ctx),
{
    let input_meta = match find_meta_in_source(tx, meta_type_hash, Source::Input, &ctx.input_metas)? {
        Some(m) => m,
        None => return Ok(()),
    };
    if !is_supply_tracked(input_meta.config_flags) && input_meta.current_supply != 0 {
        return Err(Error::MetaStateMismatch);
    }
    Ok(())
}

} // verus!
