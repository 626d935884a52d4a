//! What the xUDT token script reads: its metadata type hash argument, the token amounts of its
//! group, the metadata visible to it, and the fixed-size fields of a table.
use vstd::prelude::*;
use crate::bytes::{copy_byte32, le_at, le_u128_at, slice_to_vec};
use crate::chain::{type_hash_is, CellView, Source, TxView};
use crate::config::{flag_set, CONFIG_ACCESS_ENABLED, CONFIG_ACCESS_WHITELIST, CONFIG_PAUSED, CONFIG_SUPPLY_TRACKED};
use crate::molecule::{byte32_at_range, exact_table, exact_table_offsets, offsets_match, u32_at};
use crate::sys::ScriptError;
use crate::types::{auth_opt_v, clone_authority_opt, extensions_v, Authority, AuthorityV, Extension, XudtMeta};
use crate::xudt::error::Error;

verus! {

/// Length of a token cell's amount.
pub const UDT_AMOUNT_LEN: usize = 16;

/// The metadata fields the token script uses: flags, supply, mint authority and extensions.
pub struct ParsedXudtMeta {
    pub config_flags: u8,
    pub current_supply: u128,
    pub mint_authority: Option<Authority>,
    pub extensions: Vec<Extension>,
}

/// The value of the metadata fields the token script uses.
pub struct ParsedXudtMetaV {
    pub config_flags: u8,
    pub current_supply: u128,
    pub mint_authority: Option<AuthorityV>,
    pub extensions: Seq<(u8, Seq<u8>)>,
}

impl View for ParsedXudtMeta {
    type V = ParsedXudtMetaV;

    open spec fn view(&self) -> ParsedXudtMetaV {
        ParsedXudtMetaV {
            config_flags: self.config_flags,
            current_supply: self.current_supply,
            mint_authority: auth_opt_v(self.mint_authority),
            extensions: extensions_v(self.extensions@),
        }
    }
}

/// The fields the token script uses of decoded metadata.
pub open spec fn projected(m: XudtMeta) -> ParsedXudtMetaV {
    ParsedXudtMetaV {
        config_flags: m.config_flags,
        current_supply: m.current_supply,
        mint_authority: auth_opt_v(m.mint_authority),
        extensions: extensions_v(m.extensions@),
    }
}

impl ParsedXudtMeta {
    /// Whether supply is tracked.
    pub fn is_supply_tracked(&self) -> (r: bool)
        ensures
            r == flag_set(self.config_flags, CONFIG_SUPPLY_TRACKED),
    {
        self.config_flags & CONFIG_SUPPLY_TRACKED != 0
    }

    /// Whether access control is on.
    pub fn is_access_enabled(&self) -> (r: bool)
        ensures
            r == flag_set(self.config_flags, CONFIG_ACCESS_ENABLED),
    {
        self.config_flags & CONFIG_ACCESS_ENABLED != 0
    }

    /// Whether the AccessList is a whitelist.
    pub fn is_whitelist(&self) -> (r: bool)
        ensures
            r == flag_set(self.config_flags, CONFIG_ACCESS_WHITELIST),
    {
        self.config_flags & CONFIG_ACCESS_WHITELIST != 0
    }

    /// Whether transfers and mints are paused.
    pub fn is_paused(&self) -> (r: bool)
        ensures
            r == flag_set(self.config_flags, CONFIG_PAUSED),
    {
        self.config_flags & CONFIG_PAUSED != 0
    }
}

/// The metadata the token script found, and where.
pub struct CurrentMeta {
    pub meta: ParsedXudtMeta,
    pub source: Source,
}

/// The amount a token cell's data holds: its first 16 bytes, little endian.
pub open spec fn amount_of(d: Seq<u8>) -> Result<nat, Error> {
    if d.len() < 16 {
        Err(Error::AmountEncoding)
    } else {
        Ok(le_at(d, 0, 16))
    }
}

/// The total amount of the first `n` cells; a short amount or a total past `u128::MAX` fails.
pub open spec fn amount_upto(cells: Seq<CellView>, n: nat) -> Result<nat, Error>
    decreases n,
{
    if n == 0 {
        Ok(0)
    } else {
        match amount_upto(cells, (n - 1) as nat) {
            Err(e) => Err(e),
            Ok(t) => match amount_of(cells[n - 1].data@) {
                Err(e) => Err(e),
                Ok(v) => if t + v > u128::MAX {
                    Err(Error::AmountOverflow)
                } else {
                    Ok(t + v)
                },
            },
        }
    }
}

/// The metadata among the first `n` cells with this type hash, from what each cell decodes to:
/// none, the one found, or an error (the first does not decode, or a second one exists).
pub open spec fn meta_in_upto(cells: Seq<CellView>, decoded: Seq<Option<XudtMeta>>, hash: Seq<u8>, n: nat) -> Result<Option<ParsedXudtMetaV>, Error>
    decreases n,
{
    if n == 0 {
        Ok(None)
    } else {
        match meta_in_upto(cells, decoded, hash, (n - 1) as nat) {
            Err(e) => Err(e),
            Ok(found) => if !type_hash_is(cells[n - 1], hash) {
                Ok(found)
            } else if found is Some {
                Err(Error::MetaNotUnique)
            } else {
                match decoded[n - 1] {
                    None => Err(Error::InvalidMetaData),
                    Some(m) => Ok(Some(projected(m))),
                }
            },
        }
    }
}

/// The metadata of a source.
pub open spec fn meta_in(cells: Seq<CellView>, decoded: Seq<Option<XudtMeta>>, hash: Seq<u8>) -> Result<Option<ParsedXudtMetaV>, Error> {
    meta_in_upto(cells, decoded, hash, cells.len())
}

/// The value of a metadata lookup.
pub open spec fn found_v(r: Result<Option<ParsedXudtMeta>, Error>) -> Result<Option<ParsedXudtMetaV>, Error> {
    match r {
        Ok(Some(m)) => Ok(Some(m@)),
        Ok(None) => Ok(None),
        Err(e) => Err(e),
    }
}

/// The metadata visible to the token script: from the cell deps or the inputs, not both.
pub open spec fn visible_meta(
    tx: TxView,
    dep_decoded: Seq<Option<XudtMeta>>,
    input_decoded: Seq<Option<XudtMeta>>,
    hash: Seq<u8>,
) -> Result<Option<(ParsedXudtMetaV, Source)>, Error> {
    match meta_in(tx.cell_deps@, dep_decoded, hash) {
        Err(e) => Err(e),
        Ok(dep) => match meta_in(tx.inputs@, input_decoded, hash) {
            Err(e) => Err(e),
            Ok(input) => match (dep, input) {
                (Some(_), Some(_)) => Err(Error::MetaNotUnique),
                (Some(m), None) => Ok(Some((m, Source::CellDep))),
                (None, Some(m)) => Ok(Some((m, Source::Input))),
                (None, None) => Ok(None),
            },
        },
    }
}

/// The metadata that governs the token: that of the cell deps, or else that of the inputs, and
/// where it was found.
pub open spec fn current_meta_of(
    tx: TxView,
    dep_decoded: Seq<Option<XudtMeta>>,
    input_decoded: Seq<Option<XudtMeta>>,
    hash: Seq<u8>,
) -> Result<Option<(ParsedXudtMetaV, Source)>, Error> {
    match meta_in(tx.cell_deps@, dep_decoded, hash) {
        Err(e) => Err(e),
        Ok(Some(m)) => Ok(Some((m, Source::CellDep))),
        Ok(None) => match meta_in(tx.inputs@, input_decoded, hash) {
            Err(e) => Err(e),
            Ok(Some(m)) => Ok(Some((m, Source::Input))),
            Ok(None) => Ok(None),
        },
    }
}

/// The error a failed authority check is reported as.
pub open spec fn script_error_of(e: ScriptError) -> Error {
    match e {
        ScriptError::AuthorityFailed => Error::AuthorityFailed,
        ScriptError::UnsupportedAuthorityLocation => Error::UnsupportedAuthorityLocation,
        ScriptError::InvalidAuthority => Error::InvalidMetaData,
        _ => Error::SyscallUnknown,
    }
}

/// An authority is present and its check passed.
pub open spec fn authority_required(a: Option<AuthorityV>, check: Result<bool, ScriptError>) -> Result<(), Error> {
    match a {
        None => Err(Error::AuthorityMissing),
        Some(_) => match check {
            Ok(true) => Ok(()),
            Ok(false) => Err(Error::AuthorityFailed),
            Err(e) => Err(script_error_of(e)),
        },
    }
}

/// The metadata type hash the script's arguments hold: exactly 32 bytes.
pub fn load_meta_type_hash_arg(tx: &TxView) -> (r: Result<[u8; 32], Error>)
    ensures
        match r {
            Ok(h) => tx.script_args@.len() == 32 && h@ == tx.script_args@,
            Err(e) => tx.script_args@.len() != 32 && e == Error::InvalidArgs,
        },
{
    let args = tx.script_args.as_slice();
    if args.len() != 32 {
        return Err(Error::InvalidArgs);
    }
    let h = copy_byte32(args, 0);
    assert(args@.subrange(0, 32) =~= args@);
    Ok(h)
}

/// A failure in the first `k` cells is the failure of every longer run.
pub proof fn lemma_amount_err_sticky(cells: Seq<CellView>, k: nat, m: nat)
    requires
        k <= m,
        amount_upto(cells, k) is Err,
    ensures
        amount_upto(cells, m) == amount_upto(cells, k),
    decreases m - k,
{
    if k < m {
        lemma_amount_err_sticky(cells, k, (m - 1) as nat);
    }
}

/// The total token amount of the cells of a source.
pub fn collect_group_amount(tx: &TxView, source: Source) -> (r: Result<u128, Error>)
    ensures
        match r {
            Ok(v) => amount_upto(tx.cells_of(source), tx.cells_of(source).len()) == Ok::<nat, Error>(v as nat),
            Err(e) => amount_upto(tx.cells_of(source), tx.cells_of(source).len()) == Err::<nat, Error>(e),
        },
{
    let cells = tx.cells(source);
    let mut total: u128 = 0;
    let mut index: usize = 0;
    while index < cells.len()
        invariant
            index <= cells@.len(),
            cells@ == tx.cells_of(source),
            amount_upto(cells@, index as nat) == Ok::<nat, Error>(total as nat),
        decreases cells@.len() - index,
    {
        let amount = match decode_amount(cells[index].data.as_slice()) {
            Ok(a) => a,
            Err(e) => {
                proof {
                    lemma_amount_err_sticky(cells@, (index + 1) as nat, cells@.len());
                }
                return Err(e);
            },
        };
        total = match total.checked_add(amount) {
            Some(t) => t,
            None => {
                proof {
                    lemma_amount_err_sticky(cells@, (index + 1) as nat, cells@.len());
                }
                return Err(Error::AmountOverflow);
            },
        };
        index = index + 1;
    }
    Ok(total)
}

/// The token amount of a cell's data: its first 16 bytes, which must be there.
pub fn decode_amount(data: &[u8]) -> (r: Result<u128, Error>)
    ensures
        match r {
            Ok(v) => amount_of(data@) == Ok::<nat, Error>(v as nat),
            Err(e) => amount_of(data@) == Err::<nat, Error>(e),
        },
{
    if data.len() < UDT_AMOUNT_LEN {
        return Err(Error::AmountEncoding);
    }
    Ok(le_u128_at(data, 0))
}

/// The fields the token script uses of decoded metadata.
pub fn parse_meta(meta: &XudtMeta) -> (r: ParsedXudtMeta)
    ensures
        r@ == projected(*meta),
{
    let mut extensions: Vec<Extension> = Vec::new();
    let mut i: usize = 0;
    while i < meta.extensions.len()
        invariant
            i <= meta.extensions@.len(),
            extensions_v(extensions@) == extensions_v(meta.extensions@).subrange(0, i as int),
        decreases meta.extensions@.len() - i,
    {
        let e = &meta.extensions[i];
        let ghost before = extensions@;
        extensions.push(Extension { extension_type: e.extension_type, script: slice_to_vec(e.script.as_slice()) });
        proof {
            assert(extensions_v(before).len() == before.len());
            assert(before.len() == i);
            let a = extensions_v(extensions@);
            let b = extensions_v(meta.extensions@).subrange(0, i + 1);
            assert forall|j: int| 0 <= j < i + 1 implies a[j] == b[j] by {
                if j < i {
                    assert(extensions@[j] == before[j]);
                    assert(extensions_v(before)[j] == extensions_v(meta.extensions@).subrange(0, i as int)[j]);
                }
            }
            assert(a =~= b);
        }
        i = i + 1;
    }
    assert(extensions_v(meta.extensions@).subrange(0, meta.extensions@.len() as int) =~= extensions_v(meta.extensions@));
    ParsedXudtMeta {
        config_flags: meta.config_flags,
        current_supply: meta.current_supply,
        mint_authority: clone_authority_opt(&meta.mint_authority),
        extensions,
    }
}

/// A lookup that failed stays failed over more cells.
proof fn lemma_meta_err_sticky(cells: Seq<CellView>, decoded: Seq<Option<XudtMeta>>, hash: Seq<u8>, k: nat, m: nat)
    requires
        k <= m,
        meta_in_upto(cells, decoded, hash, k) is Err,
    ensures
        meta_in_upto(cells, decoded, hash, m) == meta_in_upto(cells, decoded, hash, k),
    decreases m - k,
{
    if k < m {
        lemma_meta_err_sticky(cells, decoded, hash, k, (m - 1) as nat);
    }
}

/// The metadata of a source with this type hash; `decoded[i]` is what cell `i`'s data decodes
/// to, `None` where it does not decode.
pub fn find_meta_in_source(
    tx: &TxView,
    meta_type_hash: &[u8; 32],
    source: Source,
    decoded: &Vec<Option<XudtMeta>>,
) -> (r: Result<Option<ParsedXudtMeta>, Error>)
    requires
        decoded@.len() == tx.cells_of(source).len(),
    ensures
        found_v(r) == meta_in(tx.cells_of(source), decoded@, meta_type_hash@),
{
    let cells = tx.cells(source);
    let mut found: Option<ParsedXudtMeta> = None;
    let mut index: usize = 0;
    while index < cells.len()
        invariant
            index <= cells@.len(),
            cells@ == tx.cells_of(source),
            decoded@.len() == cells@.len(),
            meta_in_upto(cells@, decoded@, meta_type_hash@, index as nat) == found_v(Ok(found)),
        decreases cells@.len() - index,
    {
        let hit = match &cells[index].type_hash {
            Some(h) => crate::byte32::byte32_eq(h, meta_type_hash),
            None => false,
        };
        assert(hit == type_hash_is(cells@[index as int], meta_type_hash@));
        if hit {
            if found.is_some() {
                proof {
                    lemma_meta_err_sticky(cells@, decoded@, meta_type_hash@, (index + 1) as nat, cells@.len());
                }
                return Err(Error::MetaNotUnique);
            }
            match &decoded[index] {
                None => {
                    proof {
                        lemma_meta_err_sticky(cells@, decoded@, meta_type_hash@, (index + 1) as nat, cells@.len());
                    }
                    return Err(Error::InvalidMetaData);
                },
                Some(m) => {
                    found = Some(parse_meta(m));
                },
            }
        }
        index = index + 1;
    }
    Ok(found)
}

/// The metadata visible to the token script, from the cell deps or the inputs; both is an
/// error.
pub fn find_unique_visible_meta(
    tx: &TxView,
    meta_type_hash: &[u8; 32],
    dep_decoded: &Vec<Option<XudtMeta>>,
    input_decoded: &Vec<Option<XudtMeta>>,
) -> (r: Result<Option<ParsedXudtMeta>, Error>)
    requires
        dep_decoded@.len() == tx.cell_deps@.len(),
        input_decoded@.len() == tx.inputs@.len(),
    ensures
        found_v(r) == (match visible_meta(*tx, dep_decoded@, input_decoded@, meta_type_hash@) {
            Err(e) => Err(e),
            Ok(None) => Ok(None),
            Ok(Some((m, _))) => Ok(Some(m)),
        }),
{
    let dep = find_meta_in_source(tx, meta_type_hash, Source::CellDep, dep_decoded)?;
    let input = find_meta_in_source(tx, meta_type_hash, Source::Input, input_decoded)?;
    match (dep, input) {
        (Some(_), Some(_)) => Err(Error::MetaNotUnique),
        (Some(m), None) => Ok(Some(m)),
        (None, Some(m)) => Ok(Some(m)),
        (None, None) => Ok(None),
    }
}

/// The metadata that governs the token, and where it was found: the cell deps' metadata, or
/// else the inputs'.
pub fn find_current_meta(
    tx: &TxView,
    meta_type_hash: &[u8; 32],
    dep_decoded: &Vec<Option<XudtMeta>>,
    input_decoded: &Vec<Option<XudtMeta>>,
) -> (r: Result<Option<CurrentMeta>, Error>)
    requires
        dep_decoded@.len() == tx.cell_deps@.len(),
        input_decoded@.len() == tx.inputs@.len(),
    ensures
        match r {
            Ok(Some(c)) => current_meta_of(*tx, dep_decoded@, input_decoded@, meta_type_hash@) == Ok::<Option<(ParsedXudtMetaV, Source)>, Error>(Some((c.meta@, c.source))),
            Ok(None) => current_meta_of(*tx, dep_decoded@, input_decoded@, meta_type_hash@) == Ok::<Option<(ParsedXudtMetaV, Source)>, Error>(None),
            Err(e) => current_meta_of(*tx, dep_decoded@, input_decoded@, meta_type_hash@) == Err::<Option<(ParsedXudtMetaV, Source)>, Error>(e),
        },
{
    if let Some(meta) = find_meta_in_source(tx, meta_type_hash, Source::CellDep, dep_decoded)? {
        return Ok(Some(CurrentMeta { meta, source: Source::CellDep }));
    }
    match find_meta_in_source(tx, meta_type_hash, Source::Input, input_decoded)? {
        Some(meta) => Ok(Some(CurrentMeta { meta, source: Source::Input })),
        None => Ok(None),
    }
}

/// The authority must be present and its check must have passed; `check` is what checking it
/// against the transaction reported.
pub fn require_authority(authority: &Option<Authority>, check: Result<bool, ScriptError>) -> (r: Result<(), Error>)
    ensures
        r == authority_required(auth_opt_v(*authority), check),
{
    if authority.is_none() {
        return Err(Error::AuthorityMissing);
    }
    match check {
        Ok(true) => Ok(()),
        Ok(false) => Err(Error::AuthorityFailed),
        Err(error) => Err(map_script_error(error)),
    }
}

/// The error a failed authority check is reported as.
pub fn map_script_error(error: ScriptError) -> (r: Error)
    ensures
        r == script_error_of(error),
{
    match error {
        ScriptError::AuthorityFailed => Error::AuthorityFailed,
        ScriptError::UnsupportedAuthorityLocation => Error::UnsupportedAuthorityLocation,
        ScriptError::InvalidAuthority => Error::InvalidMetaData,
        ScriptError::SyscallUnknown => Error::SyscallUnknown,
        _ => Error::SyscallUnknown,
    }
}

/// Reads the offsets of a table of exactly `fields` fields, the total size closing the list.
pub fn table_offsets(data: &[u8], fields: usize) -> (r: Result<Vec<usize>, Error>)
    ensures
        r is Ok <==> exact_table(data@, fields as nat),
        r matches Ok(o) ==> offsets_match(o@, data@, fields as nat),
        r matches Err(e) ==> e == Error::InvalidMetaData,
{
    match exact_table_offsets(data, fields) {
        Some(o) => Ok(o),
        None => Err(Error::InvalidMetaData),
    }
}

/// The 32 bytes `data[start..end]`.
pub fn byte32_field(data: &[u8], start: usize, end: usize) -> (r: Result<[u8; 32], Error>)
    ensures
        r is Ok <==> (end == start + 32 && end <= data@.len()),
        r matches Ok(v) ==> v@ == data@.subrange(start as int, start + 32),
        r matches Err(e) ==> e == Error::InvalidMetaData,
{
    match byte32_at_range(data, start, end) {
        Some(v) => Ok(v),
        None => Err(Error::InvalidMetaData),
    }
}

/// The little-endian `u32` at `start`.
pub fn read_u32(data: &[u8], start: usize) -> (r: Result<u32, Error>)
    ensures
        r is Ok <==> start + 4 <= data@.len(),
        r matches Ok(v) ==> v as nat == le_at(data@, start as int, 4),
        r matches Err(e) ==> e == Error::InvalidMetaData,
{
    match u32_at(data, start) {
        Some(v) => Ok(v),
        None => Err(Error::InvalidMetaData),
    }
}

} // verus!
