//! The enhanced xUDT token script: transfers, mints and protocol burns against the metadata
//! that governs the token, with the supply of tracked metadata moved by exactly the minted or
//! burned amount.
use vstd::prelude::*;
use crate::byte32::byte32_eq;
use crate::bytes::{bytes_eq, slice_to_vec};
use crate::chain::{type_hash_is, CellView, Source, TxView};
use crate::config::{flag_set, CONFIG_PAUSED, CONFIG_SUPPLY_TRACKED};
use crate::enhanced_xudt::extensions::{extensions_outcome, lemma_extensions_all_passed, run_extensions};
use crate::xudt::error::Error;
use crate::xudt::meta::load_meta_type_hash_arg;

verus! {

/// What a token flow is.
#[derive(Clone, Copy, Debug, PartialEq, Eq, Structural)]
pub enum Operation {
    Transfer,
    Mint,
    ProtocolBurn,
}

impl Operation {
    /// The code an extension receives for the flow.
    pub open spec fn code_of(self) -> u8 {
        match self {
            Self::Transfer => 0,
            Self::Mint => 1,
            Self::ProtocolBurn => 2,
        }
    }

    /// The code an extension receives for the flow.
    pub fn code(self) -> (r: u8)
        ensures
            r == self.code_of(),
    {
        match self {
            Self::Transfer => 0,
            Self::Mint => 1,
            Self::ProtocolBurn => 2,
        }
    }
}

/// An authority or extension: where its script runs or must appear, the script's hash, and the
/// script itself when it is carried.
pub struct ScriptAttr {
    pub location: u8,
    pub script_hash: [u8; 32],
    pub script: Option<Vec<u8>>,
}

/// The value of an authority or extension.
pub type ScriptAttrV = (u8, Seq<u8>, Option<Seq<u8>>);

/// The value of an authority or extension.
pub open spec fn attr_v(a: ScriptAttr) -> ScriptAttrV {
    (a.location, a.script_hash@, match a.script {
        Some(s) => Some(s@),
        None => None,
    })
}

/// The value of an optional authority.
pub open spec fn attr_opt_v(a: Option<ScriptAttr>) -> Option<ScriptAttrV> {
    match a {
        Some(a) => Some(attr_v(a)),
        None => None,
    }
}

/// What requiring the mint authority reported: the authority that was required (`None` when the
/// metadata has none), and the outcome.
pub struct MintRequirement {
    pub authority: Option<ScriptAttr>,
    pub result: Result<(), Error>,
}

/// The metadata fields the token script uses: flags, supply, mint authority and extensions.
pub struct TokenMeta {
    pub config_flags: u8,
    pub current_supply: u128,
    pub mint_authority: Option<ScriptAttr>,
    pub extensions: Vec<ScriptAttr>,
}

/// The value of the metadata fields the token script uses.
pub struct TokenMetaV {
    pub config_flags: u8,
    pub current_supply: u128,
    pub mint_authority: Option<ScriptAttrV>,
    pub extensions: Seq<ScriptAttrV>,
}

impl View for TokenMeta {
    type V = TokenMetaV;

    open spec fn view(&self) -> TokenMetaV {
        TokenMetaV {
            config_flags: self.config_flags,
            current_supply: self.current_supply,
            mint_authority: attr_opt_v(self.mint_authority),
            extensions: self.extensions@.map_values(|a: ScriptAttr| attr_v(a)),
        }
    }
}

/// What the token script learns from outside its own logic: the group amounts, the metadata
/// each cell of the inputs, outputs and cell deps decodes to (`None` where it does not), the
/// outcome of the holder access check, what requiring the mint authority reported, and the
/// outcome of each executed extension.
pub struct EnhancedContext {
    pub input_amount: Result<u128, Error>,
    pub output_amount: Result<u128, Error>,
    pub input_metas: Vec<Option<TokenMeta>>,
    pub output_metas: Vec<Option<TokenMeta>>,
    pub dep_metas: Vec<Option<TokenMeta>>,
    pub access_check: Result<(), Error>,
    pub mint_check: MintRequirement,
    pub extension_runs: Vec<Result<(), Error>>,
}

/// The context matches the transaction: one decoding per cell, and the mint requirement is of
/// the mint authority of the metadata visible to the script.
pub open spec fn context_fits(tx: TxView, ctx: EnhancedContext) -> bool {
    &&& ctx.input_metas@.len() == tx.inputs@.len()
    &&& ctx.output_metas@.len() == tx.outputs@.len()
    &&& ctx.dep_metas@.len() == tx.cell_deps@.len()
    &&& visible_meta(tx, ctx, tx.script_args@) matches Ok(Some(m)) ==> attr_opt_v(ctx.mint_check.authority) == m.mint_authority
}

/// The metadata among the first `n` cells with this type hash: none, the one found, or an
/// error (the first does not decode, or a second one exists).
pub open spec fn meta_in_upto(cells: Seq<CellView>, decoded: Seq<Option<TokenMeta>>, hash: Seq<u8>, n: nat) -> Result<Option<TokenMetaV>, Error>
    decreases n,
{
    if n == 0 {
        Ok(None)
    } else {
        match meta_in_upto(cells, decoded, hash, (n - 1) as nat) {
            Err(e) => Err(e),
            Ok(found) => if !type_hash_is(cells[n - 1], hash) {
                Ok(found)
            } else if found is Some {
                Err(Error::MetaNotUnique)
            } else {
                match decoded[n - 1] {
                    None => Err(Error::InvalidMetaData),
                    Some(m) => Ok(Some(m@)),
                }
            },
        }
    }
}

/// The metadata of a source.
pub open spec fn meta_in(cells: Seq<CellView>, decoded: Seq<Option<TokenMeta>>, hash: Seq<u8>) -> Result<Option<TokenMetaV>, Error> {
    meta_in_upto(cells, decoded, hash, cells.len())
}

/// The metadata visible to the token script: from the cell deps or the inputs, not both.
pub open spec fn visible_meta(tx: TxView, ctx: EnhancedContext, hash: Seq<u8>) -> Result<Option<TokenMetaV>, Error> {
    match meta_in(tx.cell_deps@, ctx.dep_metas@, hash) {
        Err(e) => Err(e),
        Ok(dep) => match meta_in(tx.inputs@, ctx.input_metas@, hash) {
            Err(e) => Err(e),
            Ok(input) => match (dep, input) {
                (Some(_), Some(_)) => Err(Error::MetaNotUnique),
                (Some(m), None) => Ok(Some(m)),
                (None, Some(m)) => Ok(Some(m)),
                (None, None) => Ok(None),
            },
        },
    }
}

/// The extensions check of a flow, whose runs are what `ctx` reports.
pub open spec fn extension_check(m: TokenMetaV, ctx: EnhancedContext) -> Result<(), Error> {
    if ctx.extension_runs@.len() != m.extensions.len() {
        Err(Error::ExtensionFailed)
    } else {
        extensions_outcome(m.extensions, ctx.extension_runs@)
    }
}

/// The supply of tracked metadata moves by `delta` (up for a mint, down for a burn) between the
/// consumed and the produced metadata, with the same flags; untracked metadata keeps a zero
/// supply.
pub open spec fn supply_outcome(tx: TxView, hash: Seq<u8>, delta: u128, mint: bool, ctx: EnhancedContext) -> Result<(), Error> {
    match meta_in(tx.inputs@, ctx.input_metas@, hash) {
        Err(e) => Err(e),
        Ok(None) => Err(Error::MetaInputMissing),
        Ok(Some(input)) => match meta_in(tx.outputs@, ctx.output_metas@, hash) {
            Err(e) => Err(e),
            Ok(None) => Err(Error::MetaOutputMissing),
            Ok(Some(output)) => if flag_set(input.config_flags, CONFIG_SUPPLY_TRACKED) {
                if mint && input.current_supply + delta > u128::MAX {
                    Err(Error::SupplyOverflow)
                } else if !mint && input.current_supply < delta {
                    Err(Error::SupplyUnderflow)
                } else {
                    let expected = if mint { input.current_supply + delta } else { input.current_supply - delta };
                    if output.current_supply != expected || output.config_flags != input.config_flags {
                        Err(Error::MetaStateMismatch)
                    } else {
                        Ok(())
                    }
                }
            } else if input.current_supply != 0 || output.current_supply != 0 {
                Err(Error::MetaStateMismatch)
            } else {
                Ok(())
            },
        },
    }
}

/// A transfer: refused while paused; the holder access check must pass and the extensions
/// accept.
pub open spec fn transfer_outcome(m: TokenMetaV, ctx: EnhancedContext) -> Result<(), Error> {
    if flag_set(m.config_flags, CONFIG_PAUSED) {
        Err(Error::MetaStateMismatch)
    } else if ctx.access_check is Err {
        ctx.access_check
    } else {
        extension_check(m, ctx)
    }
}

/// A mint of `delta`: refused while paused; the mint authority must pass, the supply move by
/// `delta`, and the extensions accept.
pub open spec fn mint_outcome(tx: TxView, hash: Seq<u8>, m: TokenMetaV, delta: u128, ctx: EnhancedContext) -> Result<(), Error> {
    if flag_set(m.config_flags, CONFIG_PAUSED) {
        Err(Error::MetaStateMismatch)
    } else if ctx.mint_check.result is Err {
        ctx.mint_check.result
    } else if supply_outcome(tx, hash, delta, true, ctx) is Err {
        supply_outcome(tx, hash, delta, true, ctx)
    } else {
        extension_check(m, ctx)
    }
}

/// A protocol burn of `delta`: the mint authority must pass, the supply move down by `delta`,
/// the holder access check pass, and the extensions accept.
pub open spec fn burn_outcome(tx: TxView, hash: Seq<u8>, m: TokenMetaV, delta: u128, ctx: EnhancedContext) -> Result<(), Error> {
    if ctx.mint_check.result is Err {
        ctx.mint_check.result
    } else if supply_outcome(tx, hash, delta, false, ctx) is Err {
        supply_outcome(tx, hash, delta, false, ctx)
    } else if ctx.access_check is Err {
        ctx.access_check
    } else {
        extension_check(m, ctx)
    }
}

/// The outcome of the script.
pub open spec fn run_outcome(tx: TxView, ctx: EnhancedContext) -> Result<(), Error> {
    let hash = tx.script_args@;
    if hash.len() != 32 {
        Err(Error::InvalidArgs)
    } else {
        match ctx.input_amount {
            Err(e) => Err(e),
            Ok(input_amount) => match ctx.output_amount {
                Err(e) => Err(e),
                Ok(output_amount) => if input_amount == output_amount {
                    match visible_meta(tx, ctx, hash) {
                        Err(e) => Err(e),
                        Ok(None) => Err(Error::MetaMissing),
                        Ok(Some(m)) => transfer_outcome(m, ctx),
                    }
                } else if output_amount > input_amount {
                    match visible_meta(tx, ctx, hash) {
                        Err(e) => Err(e),
                        Ok(None) => Err(Error::MetaMissing),
                        Ok(Some(m)) => mint_outcome(tx, hash, m, (output_amount - input_amount) as u128, ctx),
                    }
                } else {
                    match meta_in(tx.inputs@, ctx.input_metas@, hash) {
                        Err(e) => Err(e),
                        Ok(None) => Ok(()),
                        Ok(Some(input_meta)) => match visible_meta(tx, ctx, hash) {
                            Err(e) => Err(e),
                            Ok(None) => Err(Error::MetaMissing),
                            Ok(Some(visible)) => if visible != input_meta {
                                Err(Error::MetaNotUnique)
                            } else {
                                burn_outcome(tx, hash, input_meta, (input_amount - output_amount) as u128, ctx)
                            },
                        },
                    }
                },
            },
        }
    }
}

/// Runs the token script.
pub fn run(tx: &TxView, ctx: &EnhancedContext) -> (r: Result<(), Error>)
    requires
        context_fits(*tx, *ctx),
    ensures
        r == run_outcome(*tx, *ctx),
{
    let meta_type_hash = load_meta_type_hash_arg(tx)?;
    let input_amount = ctx.input_amount?;
    let output_amount = ctx.output_amount?;

    if input_amount == output_amount {
        let current_meta = match find_unique_visible_meta(tx, &meta_type_hash, ctx)? {
            Some(m) => m,
            None => return Err(Error::MetaMissing),
        };
        validate_transfer(&current_meta, ctx)
    } else if output_amount > input_amount {
        let current_meta = match find_unique_visible_meta(tx, &meta_type_hash, ctx)? {
            Some(m) => m,
            None => return Err(Error::MetaMissing),
        };
        let delta = output_amount - input_amount;
        validate_mint(tx, &meta_type_hash, &current_meta, delta, ctx)
    } else {
        let delta = input_amount - output_amount;
        let input_meta = match find_meta_in_source(tx, &meta_type_hash, Source::Input, &ctx.input_metas)? {
            Some(m) => m,
            None => return Ok(()),
        };
        let visible_meta = match find_unique_visible_meta(tx, &meta_type_hash, ctx)? {
            Some(m) => m,
            None => return Err(Error::MetaMissing),
        };
        if !token_meta_eq(&visible_meta, &input_meta) {
            return Err(Error::MetaNotUnique);
        }
        validate_protocol_burn(tx, &meta_type_hash, &input_meta, delta, ctx)
    }
}

/// The script's exit code: `0` when the transaction is valid, the error's code otherwise.
pub fn program_entry(tx: &TxView, ctx: &EnhancedContext) -> (r: i8)
    requires
        context_fits(*tx, *ctx),
    ensures
        match run_outcome(*tx, *ctx) {
            Ok(()) => r == 0,
            Err(e) => r == e.code_of(),
        },
{
    match run(tx, ctx) {
        Ok(()) => 0,
        Err(error) => error.code(),
    }
}

/// Runs the metadata's extensions for a flow; the runs reported must be one per extension.
fn check_extensions(operation: Operation, meta: &TokenMeta, mint_authority_checked: bool, ctx: &EnhancedContext) -> (r: Result<(), Error>)
    ensures
        r == extension_check(meta@, *ctx),
{
    if ctx.extension_runs.len() != meta.extensions.len() {
        return Err(Error::ExtensionFailed);
    }
    run_extensions(operation, &meta.extensions, mint_authority_checked, &ctx.extension_runs)
}

/// Checks a transfer.
pub fn validate_transfer(current_meta: &TokenMeta, ctx: &EnhancedContext) -> (r: Result<(), Error>)
    ensures
        r == transfer_outcome(current_meta@, *ctx),
{
    if flag_is_set(current_meta.config_flags, CONFIG_PAUSED) {
        return Err(Error::MetaStateMismatch);
    }
    ctx.access_check?;
    check_extensions(Operation::Transfer, current_meta, false, ctx)
}

/// Checks a mint of `delta` tokens.
pub fn validate_mint(tx: &TxView, meta_type_hash: &[u8; 32], current_meta: &TokenMeta, delta: u128, ctx: &EnhancedContext) -> (r: Result<(), Error>)
    requires
        context_fits(*tx, *ctx),
        attr_opt_v(ctx.mint_check.authority) == current_meta@.mint_authority,
    ensures
        r == mint_outcome(*tx, meta_type_hash@, current_meta@, delta, *ctx),
{
    if flag_is_set(current_meta.config_flags, CONFIG_PAUSED) {
        return Err(Error::MetaStateMismatch);
    }
    ctx.mint_check.result?;
    validate_supply_delta(tx, meta_type_hash, delta, true, ctx)?;
    check_extensions(Operation::Mint, current_meta, true, ctx)
}

/// Checks a protocol burn of `delta` tokens.
pub fn validate_protocol_burn(tx: &TxView, meta_type_hash: &[u8; 32], input_meta: &TokenMeta, delta: u128, ctx: &EnhancedContext) -> (r: Result<(), Error>)
    requires
        context_fits(*tx, *ctx),
        attr_opt_v(ctx.mint_check.authority) == input_meta@.mint_authority,
    ensures
        r == burn_outcome(*tx, meta_type_hash@, input_meta@, delta, *ctx),
{
    ctx.mint_check.result?;
    validate_supply_delta(tx, meta_type_hash, delta, false, ctx)?;
    ctx.access_check?;
    check_extensions(Operation::ProtocolBurn, input_meta, true, ctx)
}

/// The supply of tracked metadata must move by `delta` between the consumed and the produced
/// metadata, whose flags must not change; untracked metadata keeps a zero supply.
pub fn validate_supply_delta(tx: &TxView, meta_type_hash: &[u8; 32], delta: u128, mint: bool, ctx: &EnhancedContext) -> (r: Result<(), Error>)
    requires
        context_fits(*tx, *ctx),
    ensures
        r == supply_outcome(*tx, meta_type_hash@, delta, mint, *ctx),
{
    let input_meta = match find_meta_in_source(tx, meta_type_hash, Source::Input, &ctx.input_metas)? {
        Some(m) => m,
        None => return Err(Error::MetaInputMissing),
    };
    let output_meta = match find_meta_in_source(tx, meta_type_hash, Source::Output, &ctx.output_metas)? {
        Some(m) => m,
        None => return Err(Error::MetaOutputMissing),
    };

    if flag_is_set(input_meta.config_flags, CONFIG_SUPPLY_TRACKED) {
        let expected = if mint {
            match input_meta.current_supply.checked_add(delta) {
                Some(v) => v,
                None => return Err(Error::SupplyOverflow),
            }
        } else {
            match input_meta.current_supply.checked_sub(delta) {
                Some(v) => v,
                None => return Err(Error::SupplyUnderflow),
            }
        };
        if output_meta.current_supply != expected || output_meta.config_flags != input_meta.config_flags {
            return Err(Error::MetaStateMismatch);
        }
    } else if input_meta.current_supply != 0 || output_meta.current_supply != 0 {
        return Err(Error::MetaStateMismatch);
    }
    Ok(())
}

/// Whether a flag of the configuration is set.
fn flag_is_set(flags: u8, bit: u8) -> (r: bool)
    ensures
        r == flag_set(flags, bit),
{
    flags & bit != 0
}

/// A copy of an authority or extension.
fn copy_attr(a: &ScriptAttr) -> (r: ScriptAttr)
    ensures
        attr_v(r) == attr_v(*a),
{
    let script = match &a.script {
        Some(s) => Some(slice_to_vec(s.as_slice())),
        None => None,
    };
    ScriptAttr { location: a.location, script_hash: a.script_hash, script }
}

/// Whether two authorities or extensions hold the same value.
fn attr_eq(a: &ScriptAttr, b: &ScriptAttr) -> (r: bool)
    ensures
        r == (attr_v(*a) == attr_v(*b)),
{
    if a.location != b.location || !byte32_eq(&a.script_hash, &b.script_hash) {
        return false;
    }
    match (&a.script, &b.script) {
        (None, None) => true,
        (Some(s), Some(t)) => bytes_eq(s.as_slice(), t.as_slice()),
        _ => false,
    }
}

/// Whether two metadata hold the same value.
pub fn token_meta_eq(a: &TokenMeta, b: &TokenMeta) -> (r: bool)
    ensures
        r == (a@ == b@),
{
    if a.config_flags != b.config_flags || a.current_supply != b.current_supply {
        return false;
    }
    let mint_same = match (&a.mint_authority, &b.mint_authority) {
        (None, None) => true,
        (Some(x), Some(y)) => attr_eq(x, y),
        _ => false,
    };
    if !mint_same {
        return false;
    }
    if a.extensions.len() != b.extensions.len() {
        assert(a@.extensions.len() != b@.extensions.len());
        return false;
    }
    let mut i: usize = 0;
    while i < a.extensions.len()
        invariant
            i <= a.extensions@.len(),
            a.extensions@.len() == b.extensions@.len(),
            forall|j: int| 0 <= j < i ==> a@.extensions[j] == b@.extensions[j],
        decreases a.extensions@.len() - i,
    {
        if !attr_eq(&a.extensions[i], &b.extensions[i]) {
            assert(a@.extensions[i as int] != b@.extensions[i as int]);
            return false;
        }
        i = i + 1;
    }
    assert(a@.extensions =~= b@.extensions);
    true
}

/// A copy of metadata.
fn copy_meta(m: &TokenMeta) -> (r: TokenMeta)
    ensures
        r@ == m@,
{
    let mint_authority = match &m.mint_authority {
        Some(a) => Some(copy_attr(a)),
        None => None,
    };
    let mut extensions: Vec<ScriptAttr> = Vec::new();
    let mut i: usize = 0;
    while i < m.extensions.len()
        invariant
            i <= m.extensions@.len(),
            extensions@.len() == i,
            forall|j: int| 0 <= j < i ==> attr_v(#[trigger] extensions@[j]) == attr_v(m.extensions@[j]),
        decreases m.extensions@.len() - i,
    {
        extensions.push(copy_attr(&m.extensions[i]));
        i = i + 1;
    }
    let r = TokenMeta { config_flags: m.config_flags, current_supply: m.current_supply, mint_authority, extensions };
    assert(r@.extensions =~= m@.extensions);
    r
}

proof fn lemma_meta_err_sticky(cells: Seq<CellView>, decoded: Seq<Option<TokenMeta>>, hash: Seq<u8>, k: nat, m: nat)
    requires
        k <= m,
        meta_in_upto(cells, decoded, hash, k) is Err,
    ensures
        meta_in_upto(cells, decoded, hash, m) == meta_in_upto(cells, decoded, hash, k),
    decreases m - k,
{
    if k < m {
        lemma_meta_err_sticky(cells, decoded, hash, k, (m - 1) as nat);
    }
}

/// The value of a metadata lookup.
pub open spec fn found_v(r: Result<Option<TokenMeta>, Error>) -> Result<Option<TokenMetaV>, Error> {
    match r {
        Ok(Some(m)) => Ok(Some(m@)),
        Ok(None) => Ok(None),
        Err(e) => Err(e),
    }
}

/// The metadata of a source with this type hash; `decoded[i]` is what cell `i`'s data decodes
/// to, `None` where it does not decode.
pub fn find_meta_in_source(
    tx: &TxView,
    meta_type_hash: &[u8; 32],
    source: Source,
    decoded: &Vec<Option<TokenMeta>>,
) -> (r: Result<Option<TokenMeta>, Error>)
    requires
        decoded@.len() == tx.cells_of(source).len(),
    ensures
        found_v(r) == meta_in(tx.cells_of(source), decoded@, meta_type_hash@),
{
    let cells = tx.cells(source);
    let mut found: Option<TokenMeta> = None;
    let mut index: usize = 0;
    while index < cells.len()
        invariant
            index <= cells@.len(),
            cells@ == tx.cells_of(source),
            decoded@.len() == cells@.len(),
            meta_in_upto(cells@, decoded@, meta_type_hash@, index as nat) == found_v(Ok(found)),
        decreases cells@.len() - index,
    {
        let hit = match &cells[index].type_hash {
            Some(h) => byte32_eq(h, meta_type_hash),
            None => false,
        };
        assert(hit == type_hash_is(cells@[index as int], meta_type_hash@));
        if hit {
            if found.is_some() {
                proof {
                    lemma_meta_err_sticky(cells@, decoded@, meta_type_hash@, (index + 1) as nat, cells@.len());
                }
                return Err(Error::MetaNotUnique);
            }
            match &decoded[index] {
                None => {
                    proof {
                        lemma_meta_err_sticky(cells@, decoded@, meta_type_hash@, (index + 1) as nat, cells@.len());
                    }
                    return Err(Error::InvalidMetaData);
                },
                Some(m) => {
                    found = Some(copy_meta(m));
                },
            }
        }
        index = index + 1;
    }
    Ok(found)
}

/// The metadata visible to the token script, from the cell deps or the inputs; both is an
/// error.
pub fn find_unique_visible_meta(tx: &TxView, meta_type_hash: &[u8; 32], ctx: &EnhancedContext) -> (r: Result<Option<TokenMeta>, Error>)
    requires
        context_fits(*tx, *ctx),
    ensures
        found_v(r) == visible_meta(*tx, *ctx, meta_type_hash@),
{
    let dep = find_meta_in_source(tx, meta_type_hash, Source::CellDep, &ctx.dep_metas)?;
    let input = find_meta_in_source(tx, meta_type_hash, Source::Input, &ctx.input_metas)?;
    match (dep, input) {
        (Some(_), Some(_)) => Err(Error::MetaNotUnique),
        (Some(m), None) => Ok(Some(m)),
        (None, Some(m)) => Ok(Some(m)),
        (None, None) => Ok(None),
    }
}

/// An accepted mint under tracked metadata moves the supply up by exactly the minted amount.
pub proof fn lemma_mint_moves_supply(tx: TxView, hash: Seq<u8>, m: TokenMetaV, delta: u128, ctx: EnhancedContext)
    requires
        mint_outcome(tx, hash, m, delta, ctx) is Ok,
    ensures
        meta_in(tx.inputs@, ctx.input_metas@, hash) matches Ok(Some(input))
            && meta_in(tx.outputs@, ctx.output_metas@, hash) matches Ok(Some(output))
            && (flag_set(input.config_flags, CONFIG_SUPPLY_TRACKED) ==> output.current_supply == input.current_supply + delta)
            && (!flag_set(input.config_flags, CONFIG_SUPPLY_TRACKED) ==> output.current_supply == 0),
{
}

/// An accepted protocol burn under tracked metadata moves the supply down by exactly the burned
/// amount.
pub proof fn lemma_burn_moves_supply(tx: TxView, hash: Seq<u8>, m: TokenMetaV, delta: u128, ctx: EnhancedContext)
    requires
        burn_outcome(tx, hash, m, delta, ctx) is Ok,
    ensures
        meta_in(tx.inputs@, ctx.input_metas@, hash) matches Ok(Some(input))
            && meta_in(tx.outputs@, ctx.output_metas@, hash) matches Ok(Some(output))
            && (flag_set(input.config_flags, CONFIG_SUPPLY_TRACKED) ==> output.current_supply + delta == input.current_supply)
            && (!flag_set(input.config_flags, CONFIG_SUPPLY_TRACKED) ==> output.current_supply == 0),
{
}

/// Minting and protocol burning need the mint authority: an accepted run that raises the
/// amount, or that lowers it while the metadata is among the inputs, had the mint requirement
/// pass, and in a context that matches the transaction that requirement was of the mint
/// authority of the metadata the flow runs under (the consumed metadata, for a burn).
pub proof fn lemma_supply_changes_need_mint_authority(tx: TxView, ctx: EnhancedContext)
    requires
        run_outcome(tx, ctx) is Ok,
        ctx.input_amount matches Ok(i) && ctx.output_amount matches Ok(o) && i != o,
        ctx.output_amount->Ok_0 > ctx.input_amount->Ok_0
            || meta_in(tx.inputs@, ctx.input_metas@, tx.script_args@) matches Ok(Some(_)),
    ensures
        ctx.mint_check.result is Ok,
        context_fits(tx, ctx) && ctx.output_amount->Ok_0 < ctx.input_amount->Ok_0
            ==> (meta_in(tx.inputs@, ctx.input_metas@, tx.script_args@) matches Ok(Some(m))
                && attr_opt_v(ctx.mint_check.authority) == m.mint_authority),
        context_fits(tx, ctx) && ctx.output_amount->Ok_0 > ctx.input_amount->Ok_0
            ==> (visible_meta(tx, ctx, tx.script_args@) matches Ok(Some(m))
                && attr_opt_v(ctx.mint_check.authority) == m.mint_authority),
{
}

/// The flows of an accepted run: a transfer (equal amounts) runs under metadata the script sees
/// that is not paused, with the holder access check passed; a mint runs under visible metadata
/// that is not paused; a protocol burn (metadata among the inputs) has the holder access check
/// passed; and each of them has every executed extension report success.
pub proof fn lemma_accepted_flows(tx: TxView, ctx: EnhancedContext)
    requires
        run_outcome(tx, ctx) is Ok,
        ctx.input_amount is Ok && ctx.output_amount is Ok,
    ensures
        ctx.input_amount->Ok_0 == ctx.output_amount->Ok_0 ==> (visible_meta(tx, ctx, tx.script_args@) matches Ok(Some(m))
            && !flag_set(m.config_flags, CONFIG_PAUSED) && ctx.access_check is Ok
            && ctx.extension_runs@.len() == m.extensions.len()
            && forall|i: int| 0 <= i < ctx.extension_runs@.len() ==> (#[trigger] ctx.extension_runs@[i]) is Ok),
        ctx.output_amount->Ok_0 > ctx.input_amount->Ok_0 ==> (visible_meta(tx, ctx, tx.script_args@) matches Ok(Some(m))
            && !flag_set(m.config_flags, CONFIG_PAUSED)),
        ctx.output_amount->Ok_0 < ctx.input_amount->Ok_0 && (meta_in(tx.inputs@, ctx.input_metas@, tx.script_args@) matches Ok(Some(_)))
            ==> ctx.access_check is Ok,
{
    if ctx.input_amount->Ok_0 == ctx.output_amount->Ok_0 {
        let m = visible_meta(tx, ctx, tx.script_args@)->Ok_0->Some_0;
        lemma_extensions_all_passed(m.extensions, ctx.extension_runs@);
    }
}

} // verus!
