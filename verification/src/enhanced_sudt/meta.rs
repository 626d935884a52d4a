//! Enhanced sUDT: the metadata cell, its authority, and the supply rules for mint and burn.
use vstd::prelude::*;
use crate::bytes::{le_at, le_value};
use crate::chain::{
    has_lock_hash, has_type_hash, lock_hash_is, locate_type_hash, located_spec, first_with_type_hash, type_hash_is,
    CellView, Located, Source, TxView,
};
use crate::config::flag_set;
use crate::enhanced_sudt::error::Error;
use crate::molecule::{
    byte32_at_range, byte_at_range, exact_table, sized_table, sized_table_offsets, header_offsets, offsets_match,
    u128_at_range, u32_at,
};

verus! {

/// Width in bytes of a token amount.
pub const UDT_AMOUNT_LEN: usize = 16;

/// Number of fields of the sUDT metadata table.
pub const SUDT_META_FIELDS: usize = 9;

/// The flag bit that turns supply tracking on.
pub const CONFIG_SUPPLY_TRACKED: u8 = 0b0000_0001;

/// The only flags sUDT metadata may set.
pub const SUDT_ALLOWED_CONFIG_MASK: u8 = 0b0000_0001;

/// The parts of sUDT metadata this script reads.
#[derive(Clone, Copy, Debug)]
pub struct SudtMeta {
    pub config_flags: u8,
    pub current_supply: u128,
    pub mint_authority: Option<ScriptAttr>,
}

/// An authority: where its script must appear, and the script's hash.
#[derive(Clone, Copy, Debug)]
pub struct ScriptAttr {
    pub location: u8,
    pub script_hash: [u8; 32],
}

/// The value of an authority.
pub struct ScriptAttrV {
    pub location: u8,
    pub script_hash: Seq<u8>,
}

/// The value of sUDT metadata.
pub struct SudtMetaV {
    pub config_flags: u8,
    pub current_supply: nat,
    pub mint_authority: Option<ScriptAttrV>,
}

impl View for ScriptAttr {
    type V = ScriptAttrV;

    open spec fn view(&self) -> ScriptAttrV {
        ScriptAttrV { location: self.location, script_hash: self.script_hash@ }
    }
}

/// The value of an optional authority.
pub open spec fn attr_opt_v(a: Option<ScriptAttr>) -> Option<ScriptAttrV> {
    match a {
        Some(a) => Some(a@),
        None => None,
    }
}

impl View for SudtMeta {
    type V = SudtMetaV;

    open spec fn view(&self) -> SudtMetaV {
        SudtMetaV {
            config_flags: self.config_flags,
            current_supply: self.current_supply as nat,
            mint_authority: attr_opt_v(self.mint_authority),
        }
    }
}

/// The authority a 3-field table encodes: a location byte, a 32-byte script hash, and an
/// optional script that locations `3` and `4` need and locations `0..=2` must not have.
pub open spec fn script_attr_of(d: Seq<u8>) -> Option<ScriptAttrV> {
    let o = header_offsets(d, 3);
    if !exact_table(d, 3) || o[1] != o[0] + 1 || o[2] != o[1] + 32 {
        None
    } else {
        let location = d[o[0]];
        let script_empty = o[3] == o[2];
        if (location <= 2 && script_empty) || ((location == 3 || location == 4) && !script_empty) {
            Some(ScriptAttrV { location, script_hash: d.subrange(o[1], o[1] + 32) })
        } else {
            None
        }
    }
}

/// An optional authority: empty bytes for none; `None` when the bytes are not an authority.
pub open spec fn script_attr_opt_of(d: Seq<u8>) -> Option<Option<ScriptAttrV>> {
    if d.len() == 0 {
        Some(None)
    } else {
        match script_attr_of(d) {
            Some(a) => Some(Some(a)),
            None => None,
        }
    }
}

/// The metadata a 9-field table encodes: one flags byte with only the supply-tracked bit, a
/// 16-byte supply, one decimals byte, and a mint authority in field 7; untracked supply must
/// be zero. `None` when the bytes are not such metadata.
pub open spec fn sudt_meta_of(d: Seq<u8>) -> Option<SudtMetaV> {
    let o = header_offsets(d, 9);
    if !exact_table(d, 9) || o[1] != o[0] + 1 {
        None
    } else if d[o[0]] & !SUDT_ALLOWED_CONFIG_MASK != 0 {
        None
    } else if o[2] != o[1] + 16 || o[3] != o[2] + 1 {
        None
    } else {
        match script_attr_opt_of(d.subrange(o[7], o[8])) {
            None => None,
            Some(mint) => {
                let flags = d[o[0]];
                let supply = le_at(d, o[1], 16);
                if !flag_set(flags, CONFIG_SUPPLY_TRACKED) && supply != 0 {
                    None
                } else {
                    Some(SudtMetaV { config_flags: flags, current_supply: supply, mint_authority: mint })
                }
            },
        }
    }
}

/// The amount a token cell's data holds: exactly 16 bytes, little endian.
pub open spec fn amount_of(d: Seq<u8>) -> Result<nat, Error> {
    if d.len() != 16 {
        Err(Error::AmountEncoding)
    } else {
        Ok(le_value(d))
    }
}

/// The total amount of the first `n` cells, failing on the first malformed amount or on the
/// first sum above `u128::MAX`.
pub open spec fn amount_upto(cells: Seq<CellView>, n: nat) -> Result<nat, Error>
    decreases n,
{
    if n == 0 {
        Ok(0)
    } else {
        match amount_upto(cells, (n - 1) as nat) {
            Err(e) => Err(e),
            Ok(t) => match amount_of(cells[n - 1].data@) {
                Err(e) => Err(e),
                Ok(v) => if t + v > u128::MAX {
                    Err(Error::AmountOverflow)
                } else {
                    Ok(t + v)
                },
            },
        }
    }
}

/// A failure in the first `k` cells is the failure of every longer run.
pub proof fn lemma_amount_err_sticky(cells: Seq<CellView>, k: nat, m: nat)
    requires
        k <= m,
        amount_upto(cells, k) is Err,
    ensures
        amount_upto(cells, m) == amount_upto(cells, k),
    decreases m - k,
{
    if k < m {
        lemma_amount_err_sticky(cells, k, (m - 1) as nat);
    }
}

/// The metadata among `cells` with type hash `hash`: none, the parsed unique one, or an error
/// (the first such cell does not parse, or a second one exists).
pub open spec fn meta_in(cells: Seq<CellView>, hash: Seq<u8>) -> Result<Option<SudtMetaV>, Error> {
    if forall|j: int| 0 <= j < cells.len() ==> !type_hash_is(#[trigger] cells[j], hash) {
        Ok(None)
    } else {
        let i = choose|i: int| first_with_type_hash(cells, hash, i);
        match sudt_meta_of(cells[i].data@) {
            None => Err(Error::InvalidMetaData),
            Some(m) => if exists|j: int| i < j < cells.len() && type_hash_is(#[trigger] cells[j], hash) {
                Err(Error::MetaNotUnique)
            } else {
                Ok(Some(m))
            },
        }
    }
}

/// The value of a metadata lookup.
pub open spec fn found_v(r: Result<Option<SudtMeta>, Error>) -> Result<Option<SudtMetaV>, Error> {
    match r {
        Ok(Some(m)) => Ok(Some(m@)),
        Ok(None) => Ok(None),
        Err(e) => Err(e),
    }
}

/// The metadata visible to the token script: in the cell deps or the inputs, not both.
pub open spec fn visible_meta(tx: TxView, hash: Seq<u8>) -> Result<Option<SudtMetaV>, Error> {
    match meta_in(tx.cell_deps@, hash) {
        Err(e) => Err(e),
        Ok(dep) => match meta_in(tx.inputs@, hash) {
            Err(e) => Err(e),
            Ok(inp) => if dep is Some && inp is Some {
                Err(Error::MetaNotUnique)
            } else if dep is Some {
                Ok(dep)
            } else {
                Ok(inp)
            },
        },
    }
}

/// Whether an authority authorizes the transaction: an input lock, an input type or an output
/// type with its hash; dynamic linking and spawn are not supported here.
pub open spec fn authority_check(tx: TxView, a: ScriptAttrV) -> Result<bool, Error> {
    if a.location == 0 {
        Ok(exists|i: int| 0 <= i < tx.inputs@.len() && lock_hash_is(#[trigger] tx.inputs@[i], a.script_hash))
    } else if a.location == 1 {
        Ok(exists|i: int| 0 <= i < tx.inputs@.len() && type_hash_is(#[trigger] tx.inputs@[i], a.script_hash))
    } else if a.location == 2 {
        Ok(exists|i: int| 0 <= i < tx.outputs@.len() && type_hash_is(#[trigger] tx.outputs@[i], a.script_hash))
    } else if a.location == 3 || a.location == 4 {
        Err(Error::UnsupportedAuthorityLocation)
    } else {
        Err(Error::InvalidMetaData)
    }
}

/// An authority is present and authorizes the transaction.
pub open spec fn authority_required(tx: TxView, a: Option<ScriptAttrV>) -> Result<(), Error> {
    match a {
        None => Err(Error::AuthorityMissing),
        Some(a) => match authority_check(tx, a) {
            Ok(true) => Ok(()),
            Ok(false) => Err(Error::AuthorityFailed),
            Err(e) => Err(e),
        },
    }
}

/// Tracked supply moves by `delta` from the input metadata to the output metadata, with flags
/// unchanged; both must be there.
pub open spec fn supply_moves(tx: TxView, hash: Seq<u8>, delta: nat, mint: bool) -> Result<(), Error> {
    match meta_in(tx.inputs@, hash) {
        Err(e) => Err(e),
        Ok(None) => Err(Error::MetaInputMissing),
        Ok(Some(input)) => match meta_in(tx.outputs@, hash) {
            Err(e) => Err(e),
            Ok(None) => Err(Error::MetaOutputMissing),
            Ok(Some(output)) => {
                if mint && input.current_supply + delta > u128::MAX {
                    Err(Error::SupplyOverflow)
                } else if !mint && input.current_supply < delta {
                    Err(Error::SupplyUnderflow)
                } else {
                    let expected = if mint {
                        input.current_supply + delta
                    } else {
                        (input.current_supply - delta) as nat
                    };
                    if output.current_supply != expected || output.config_flags != input.config_flags {
                        Err(Error::MetaStateMismatch)
                    } else {
                        Ok(())
                    }
                }
            },
        },
    }
}

/// The outcome of a mint of `delta` tokens.
pub open spec fn mint_outcome(tx: TxView, hash: Seq<u8>, delta: nat) -> Result<(), Error> {
    match visible_meta(tx, hash) {
        Err(e) => Err(e),
        Ok(None) => match meta_in(tx.inputs@, hash) {
            Err(e) => Err(e),
            Ok(Some(_)) => Err(Error::MetaNotUnique),
            Ok(None) => match meta_in(tx.outputs@, hash) {
                Err(e) => Err(e),
                Ok(None) => Err(Error::MetaMissing),
                Ok(Some(_)) => Ok(()),
            },
        },
        Ok(Some(v)) => match authority_required(tx, v.mint_authority) {
            Err(e) => Err(e),
            Ok(()) => if flag_set(v.config_flags, CONFIG_SUPPLY_TRACKED) {
                supply_moves(tx, hash, delta, true)
            } else if v.current_supply != 0 {
                Err(Error::MetaStateMismatch)
            } else {
                Ok(())
            },
        },
    }
}

/// The outcome of a burn or destruction of `delta` tokens.
pub open spec fn burn_outcome(tx: TxView, hash: Seq<u8>, delta: nat) -> Result<(), Error> {
    match meta_in(tx.inputs@, hash) {
        Err(e) => Err(e),
        Ok(None) => Ok(()),
        Ok(Some(input)) => match authority_required(tx, input.mint_authority) {
            Err(e) => Err(e),
            Ok(()) => if flag_set(input.config_flags, CONFIG_SUPPLY_TRACKED) {
                match meta_in(tx.outputs@, hash) {
                    Err(e) => Err(e),
                    Ok(None) => Err(Error::MetaOutputMissing),
                    Ok(Some(output)) => if input.current_supply < delta {
                        Err(Error::SupplyUnderflow)
                    } else if output.current_supply != input.current_supply - delta
                        || output.config_flags != input.config_flags {
                        Err(Error::MetaStateMismatch)
                    } else {
                        Ok(())
                    },
                }
            } else if input.current_supply != 0 {
                Err(Error::MetaStateMismatch)
            } else {
                Ok(())
            },
        },
    }
}

/// The metadata type hash the token script names in its arguments.
pub fn load_meta_type_hash_arg(tx: &TxView) -> (r: Result<[u8; 32], Error>)
    ensures
        match r {
            Ok(h) => tx.script_args@.len() == 32 && h@ == tx.script_args@,
            Err(e) => tx.script_args@.len() != 32 && e == Error::InvalidArgs,
        },
{
    let args = tx.script_args.as_slice();
    if args.len() != 32 {
        return Err(Error::InvalidArgs);
    }
    let h = crate::bytes::copy_byte32(args, 0);
    assert(args@.subrange(0, 32) =~= args@);
    Ok(h)
}

/// The total token amount of the cells of a source.
pub fn collect_group_amount(tx: &TxView, source: Source) -> (r: Result<u128, Error>)
    ensures
        match r {
            Ok(v) => amount_upto(tx.cells_of(source), tx.cells_of(source).len()) == Ok::<nat, Error>(v as nat),
            Err(e) => amount_upto(tx.cells_of(source), tx.cells_of(source).len()) == Err::<nat, Error>(e),
        },
{
    let cells = tx.cells(source);
    let mut total: u128 = 0;
    let mut index: usize = 0;
    while index < cells.len()
        invariant
            index <= cells@.len(),
            cells@ == tx.cells_of(source),
            amount_upto(cells@, index as nat) == Ok::<nat, Error>(total as nat),
        decreases cells@.len() - index,
    {
        let amount = match decode_amount(cells[index].data.as_slice()) {
            Ok(a) => a,
            Err(e) => {
                proof {
                    lemma_amount_err_sticky(cells@, (index + 1) as nat, cells@.len());
                }
                return Err(e);
            },
        };
        total = match total.checked_add(amount) {
            Some(t) => t,
            None => {
                proof {
                    lemma_amount_err_sticky(cells@, (index + 1) as nat, cells@.len());
                }
                return Err(Error::AmountOverflow);
            },
        };
        index = index + 1;
    }
    Ok(total)
}

/// Checks a mint of `delta` tokens against the visible metadata: an initial mint needs the
/// metadata being created; later mints need the mint authority, and tracked supply must grow
/// by `delta`.
pub fn validate_mint(tx: &TxView, meta_type_hash: &[u8; 32], delta: u128) -> (r: Result<(), Error>)
    ensures
        r == mint_outcome(*tx, meta_type_hash@, delta as nat),
{
    let visible = find_unique_visible_meta(tx, meta_type_hash)?;
    let visible_meta = match visible {
        None => return validate_initial_create_mint(tx, meta_type_hash, delta),
        Some(m) => m,
    };
    require_authority(tx, &visible_meta.mint_authority)?;

    if is_supply_tracked(visible_meta.config_flags) {
        let input_meta = match find_meta_in_source(tx, meta_type_hash, Source::Input)? {
            Some(m) => m,
            None => return Err(Error::MetaInputMissing),
        };
        let output_meta = match find_meta_in_source(tx, meta_type_hash, Source::Output)? {
            Some(m) => m,
            None => return Err(Error::MetaOutputMissing),
        };
        let expected = match input_meta.current_supply.checked_add(delta) {
            Some(v) => v,
            None => return Err(Error::SupplyOverflow),
        };
        if output_meta.current_supply != expected || output_meta.config_flags != input_meta.config_flags {
            return Err(Error::MetaStateMismatch);
        }
    } else if visible_meta.current_supply != 0 {
        return Err(Error::MetaStateMismatch);
    }
    Ok(())
}

/// An initial mint: no metadata is consumed, and the metadata cell is being created.
fn validate_initial_create_mint(tx: &TxView, meta_type_hash: &[u8; 32], _delta: u128) -> (r: Result<(), Error>)
    ensures
        r == (match meta_in(tx.inputs@, meta_type_hash@) {
            Err(e) => Err(e),
            Ok(Some(_)) => Err(Error::MetaNotUnique),
            Ok(None) => match meta_in(tx.outputs@, meta_type_hash@) {
                Err(e) => Err(e),
                Ok(None) => Err(Error::MetaMissing),
                Ok(Some(_)) => Ok(()),
            },
        }),
{
    if find_meta_in_source(tx, meta_type_hash, Source::Input)?.is_some() {
        return Err(Error::MetaNotUnique);
    }
    match find_meta_in_source(tx, meta_type_hash, Source::Output)? {
        Some(_) => Ok(()),
        None => Err(Error::MetaMissing),
    }
}

/// Checks a burn or destruction of `delta` tokens: without consumed metadata it is a user
/// destruction and always allowed; with it, the mint authority must authorize and tracked
/// supply must shrink by `delta`.
pub fn validate_burn_or_destruction(tx: &TxView, meta_type_hash: &[u8; 32], delta: u128) -> (r: Result<(), Error>)
    ensures
        r == burn_outcome(*tx, meta_type_hash@, delta as nat),
{
    let input_meta = match find_meta_in_source(tx, meta_type_hash, Source::Input)? {
        None => return Ok(()),
        Some(m) => m,
    };

    require_authority(tx, &input_meta.mint_authority)?;

    if is_supply_tracked(input_meta.config_flags) {
        let output_meta = match find_meta_in_source(tx, meta_type_hash, Source::Output)? {
            Some(m) => m,
            None => return Err(Error::MetaOutputMissing),
        };
        let expected = match input_meta.current_supply.checked_sub(delta) {
            Some(v) => v,
            None => return Err(Error::SupplyUnderflow),
        };
        if output_meta.current_supply != expected || output_meta.config_flags != input_meta.config_flags {
            return Err(Error::MetaStateMismatch);
        }
    } else if input_meta.current_supply != 0 {
        return Err(Error::MetaStateMismatch);
    }
    Ok(())
}

/// The token amount a cell's data holds; the data must be exactly 16 bytes.
pub fn decode_amount(data: &[u8]) -> (r: Result<u128, Error>)
    ensures
        match r {
            Ok(v) => amount_of(data@) == Ok::<nat, Error>(v as nat),
            Err(e) => amount_of(data@) == Err::<nat, Error>(e),
        },
{
    if data.len() != UDT_AMOUNT_LEN {
        return Err(Error::AmountEncoding);
    }
    let v = crate::bytes::le_u128_at(data, 0);
    assert(data@.subrange(0, 16) =~= data@);
    Ok(v)
}

/// The metadata visible to the token script, from the cell deps or the inputs; both is an error.
pub fn find_unique_visible_meta(tx: &TxView, meta_type_hash: &[u8; 32]) -> (r: Result<Option<SudtMeta>, Error>)
    ensures
        found_v(r) == visible_meta(*tx, meta_type_hash@),
{
    let dep = find_meta_in_source(tx, meta_type_hash, Source::CellDep)?;
    let inp = find_meta_in_source(tx, meta_type_hash, Source::Input)?;
    match (dep, inp) {
        (Some(_), Some(_)) => Err(Error::MetaNotUnique),
        (Some(d), None) => Ok(Some(d)),
        (None, i) => Ok(i),
    }
}

/// Two cells cannot both be the first with a type hash.
pub proof fn lemma_first_unique(cells: Seq<CellView>, hash: Seq<u8>, i: int, j: int)
    requires
        first_with_type_hash(cells, hash, i),
        first_with_type_hash(cells, hash, j),
    ensures
        i == j,
{
    if i < j {
        assert(!type_hash_is(cells[i], hash));
    } else if j < i {
        assert(!type_hash_is(cells[j], hash));
    }
}

/// The metadata cell of a source with the metadata type hash, parsed; a second such cell is an
/// error.
pub fn find_meta_in_source(tx: &TxView, meta_type_hash: &[u8; 32], source: Source) -> (r: Result<
    Option<SudtMeta>,
    Error,
>)
    ensures
        found_v(r) == meta_in(tx.cells_of(source), meta_type_hash@),
{
    let cells = tx.cells(source);
    let loc = locate_type_hash(cells, meta_type_hash);
    match loc {
        Located::Absent => Ok(None),
        Located::Unique(i) => {
            let m = parse_meta(cells[i].data.as_slice());
            proof {
                let k = choose|k: int| first_with_type_hash(cells@, meta_type_hash@, k);
                lemma_first_unique(cells@, meta_type_hash@, k, i as int);
            }
            match m {
                Ok(m) => Ok(Some(m)),
                Err(e) => Err(e),
            }
        },
        Located::Several(i) => {
            let m = parse_meta(cells[i].data.as_slice());
            proof {
                let k = choose|k: int| first_with_type_hash(cells@, meta_type_hash@, k);
                lemma_first_unique(cells@, meta_type_hash@, k, i as int);
            }
            match m {
                Ok(_) => Err(Error::MetaNotUnique),
                Err(e) => Err(e),
            }
        },
    }
}

/// Parses sUDT metadata; any malformation is invalid metadata.
pub fn parse_meta(data: &[u8]) -> (r: Result<SudtMeta, Error>)
    ensures
        match r {
            Ok(m) => sudt_meta_of(data@) == Some(m@),
            Err(e) => sudt_meta_of(data@) is None && e == Error::InvalidMetaData,
        },
{
    let offsets = table_offsets(data, SUDT_META_FIELDS)?;
    proof {
        assert(offsets@[0] as int == header_offsets(data@, 9)[0]);
        assert(offsets@[1] as int == header_offsets(data@, 9)[1]);
        assert(offsets@[2] as int == header_offsets(data@, 9)[2]);
        assert(offsets@[3] as int == header_offsets(data@, 9)[3]);
        assert(offsets@[7] as int == header_offsets(data@, 9)[7]);
        assert(offsets@[8] as int == header_offsets(data@, 9)[8]);
        crate::molecule::lemma_offsets_ordered(data@, 9);
    }
    let config_flags = single_byte_field(data, offsets[0], offsets[1])?;
    if config_flags & !SUDT_ALLOWED_CONFIG_MASK != 0 {
        return Err(Error::InvalidMetaData);
    }

    let current_supply = u128_field(data, offsets[1], offsets[2])?;
    let _decimals = single_byte_field(data, offsets[2], offsets[3])?;
    let mint_authority = parse_script_attr_opt(vstd::slice::slice_subrange(data, offsets[7], offsets[8]))?;

    if !is_supply_tracked(config_flags) && current_supply != 0 {
        return Err(Error::InvalidMetaData);
    }

    Ok(SudtMeta { config_flags, current_supply, mint_authority })
}

/// Whether the supply-tracking flag is set.
pub fn is_supply_tracked(config_flags: u8) -> (r: bool)
    ensures
        r == flag_set(config_flags, CONFIG_SUPPLY_TRACKED),
{
    config_flags & CONFIG_SUPPLY_TRACKED != 0
}

/// Reads the offsets of a table of exactly `fields` fields.
pub fn table_offsets(data: &[u8], fields: usize) -> (r: Result<Vec<usize>, Error>)
    ensures
        r is Ok <==> sized_table(data@, fields as nat),
        r matches Ok(o) ==> offsets_match(o@, data@, fields as nat),
        r matches Err(e) ==> e == Error::InvalidMetaData,
{
    match sized_table_offsets(data, fields) {
        Some(o) => Ok(o),
        None => Err(Error::InvalidMetaData),
    }
}

/// The single byte `data[start..end]`.
pub fn single_byte_field(data: &[u8], start: usize, end: usize) -> (r: Result<u8, Error>)
    ensures
        r is Ok <==> (end == start + 1 && end <= data@.len()),
        r matches Ok(b) ==> b == data@[start as int],
        r matches Err(e) ==> e == Error::InvalidMetaData,
{
    match byte_at_range(data, start, end) {
        Some(b) => Ok(b),
        None => Err(Error::InvalidMetaData),
    }
}

/// The little-endian `u128` in `data[start..end]`.
pub fn u128_field(data: &[u8], start: usize, end: usize) -> (r: Result<u128, Error>)
    ensures
        r is Ok <==> (end == start + 16 && end <= data@.len()),
        r matches Ok(v) ==> v as nat == le_at(data@, start as int, 16),
        r matches Err(e) ==> e == Error::InvalidMetaData,
{
    match u128_at_range(data, start, end) {
        Some(v) => Ok(v),
        None => Err(Error::InvalidMetaData),
    }
}

/// An optional authority: empty bytes for none.
pub fn parse_script_attr_opt(data: &[u8]) -> (r: Result<Option<ScriptAttr>, Error>)
    ensures
        match r {
            Ok(a) => script_attr_opt_of(data@) == Some(attr_opt_v(a)),
            Err(e) => script_attr_opt_of(data@) is None && e == Error::InvalidMetaData,
        },
{
    if data.len() == 0 {
        return Ok(None);
    }
    match parse_script_attr(data) {
        Ok(a) => Ok(Some(a)),
        Err(e) => Err(e),
    }
}

/// An authority: location byte, script hash, and the optional script its location calls for.
pub fn parse_script_attr(data: &[u8]) -> (r: Result<ScriptAttr, Error>)
    ensures
        match r {
            Ok(a) => script_attr_of(data@) == Some(a@),
            Err(e) => script_attr_of(data@) is None && e == Error::InvalidMetaData,
        },
{
    let offsets = table_offsets(data, 3)?;
    proof {
        assert(offsets@[0] as int == header_offsets(data@, 3)[0]);
        assert(offsets@[1] as int == header_offsets(data@, 3)[1]);
        assert(offsets@[2] as int == header_offsets(data@, 3)[2]);
        assert(offsets@[3] as int == header_offsets(data@, 3)[3]);
        crate::molecule::lemma_offsets_ordered(data@, 3);
    }
    let location = single_byte_field(data, offsets[0], offsets[1])?;
    let script_hash = byte32_field(data, offsets[1], offsets[2])?;
    let script_empty = offsets[2] == offsets[3];

    if (location <= 2 && script_empty) || ((location == 3 || location == 4) && !script_empty) {
        Ok(ScriptAttr { location, script_hash })
    } else {
        Err(Error::InvalidMetaData)
    }
}

/// The 32 bytes `data[start..end]`.
pub fn byte32_field(data: &[u8], start: usize, end: usize) -> (r: Result<[u8; 32], Error>)
    ensures
        r is Ok <==> (end == start + 32 && end <= data@.len()),
        r matches Ok(v) ==> v@ == data@.subrange(start as int, start + 32),
        r matches Err(e) ==> e == Error::InvalidMetaData,
{
    match byte32_at_range(data, start, end) {
        Some(v) => Ok(v),
        None => Err(Error::InvalidMetaData),
    }
}

/// The little-endian `u32` at `start`.
pub fn read_u32(data: &[u8], start: usize) -> (r: Result<u32, Error>)
    ensures
        r is Ok <==> start + 4 <= data@.len(),
        r matches Ok(v) ==> v as nat == le_at(data@, start as int, 4),
        r matches Err(e) ==> e == Error::InvalidMetaData,
{
    match u32_at(data, start) {
        Some(v) => Ok(v),
        None => Err(Error::InvalidMetaData),
    }
}

/// Whether an authority authorizes the transaction.
pub fn check_authority(tx: &TxView, authority: &ScriptAttr) -> (r: Result<bool, Error>)
    ensures
        r == authority_check(*tx, authority@),
{
    let location = authority.location;
    if location == 0 {
        Ok(has_input_lock_hash(tx, &authority.script_hash))
    } else if location == 1 {
        let found = has_type_hash_in(tx, &authority.script_hash, Source::Input);
        assert(tx.cells_of(Source::Input) == tx.inputs@);
        Ok(found)
    } else if location == 2 {
        let found = has_type_hash_in(tx, &authority.script_hash, Source::Output);
        assert(tx.cells_of(Source::Output) == tx.outputs@);
        Ok(found)
    } else if location == 3 || location == 4 {
        Err(Error::UnsupportedAuthorityLocation)
    } else {
        Err(Error::InvalidMetaData)
    }
}

/// The authority must be present and authorize the transaction.
pub fn require_authority(tx: &TxView, authority: &Option<ScriptAttr>) -> (r: Result<(), Error>)
    ensures
        r == authority_required(*tx, attr_opt_v(*authority)),
{
    let authority = match authority {
        Some(a) => a,
        None => return Err(Error::AuthorityMissing),
    };
    match check_authority(tx, authority)? {
        true => Ok(()),
        false => Err(Error::AuthorityFailed),
    }
}

/// Whether some input is locked by the script with this hash.
pub fn has_input_lock_hash(tx: &TxView, target: &[u8; 32]) -> (r: bool)
    ensures
        r == exists|i: int| 0 <= i < tx.inputs@.len() && lock_hash_is(#[trigger] tx.inputs@[i], target@),
{
    has_lock_hash(&tx.inputs, target)
}

/// Whether some cell of a source has this type hash.
pub fn has_type_hash_in(tx: &TxView, target: &[u8; 32], source: Source) -> (r: bool)
    ensures
        r == exists|i: int| 0 <= i < tx.cells_of(source).len() && type_hash_is(#[trigger] tx.cells_of(source)[i], target@),
{
    has_type_hash(tx.cells(source), target)
}

/// A decrease of the token amount without the metadata among the inputs is a holder's
/// destruction: always accepted.
pub proof fn lemma_destruction_without_meta_input(tx: TxView, hash: Seq<u8>, delta: nat)
    requires
        meta_in(tx.inputs@, hash) == Ok::<Option<SudtMetaV>, Error>(None),
    ensures
        burn_outcome(tx, hash, delta) == Ok::<(), Error>(()),
{
}

/// An accepted mint under tracked visible metadata moves the supply up by exactly the minted
/// amount, with the flags kept.
pub proof fn lemma_mint_moves_supply(tx: TxView, hash: Seq<u8>, delta: nat)
    requires
        mint_outcome(tx, hash, delta) is Ok,
        visible_meta(tx, hash) matches Ok(Some(v)) && flag_set(v.config_flags, CONFIG_SUPPLY_TRACKED),
    ensures
        meta_in(tx.inputs@, hash) matches Ok(Some(input))
            && meta_in(tx.outputs@, hash) matches Ok(Some(output))
            && output.current_supply == input.current_supply + delta
            && output.config_flags == input.config_flags,
{
}

/// An accepted burn under tracked input metadata moves the supply down by exactly the burned
/// amount, with the flags kept.
pub proof fn lemma_burn_moves_supply(tx: TxView, hash: Seq<u8>, delta: nat)
    requires
        burn_outcome(tx, hash, delta) is Ok,
        meta_in(tx.inputs@, hash) matches Ok(Some(input)) && flag_set(input.config_flags, CONFIG_SUPPLY_TRACKED),
    ensures
        meta_in(tx.inputs@, hash) matches Ok(Some(input))
            && meta_in(tx.outputs@, hash) matches Ok(Some(output))
            && output.current_supply + delta == input.current_supply
            && output.config_flags == input.config_flags,
{
}

/// The authority names a cell the transaction carries: an input whose lock hash is the
/// authority's script hash (location `0`), an input whose type hash is (location `1`), or an
/// output whose type hash is (location `2`).
pub open spec fn named_cell_present(tx: TxView, a: ScriptAttrV) -> bool {
    ||| a.location == 0 && exists|i: int| 0 <= i < tx.inputs@.len() && lock_hash_is(#[trigger] tx.inputs@[i], a.script_hash)
    ||| a.location == 1 && exists|i: int| 0 <= i < tx.inputs@.len() && type_hash_is(#[trigger] tx.inputs@[i], a.script_hash)
    ||| a.location == 2 && exists|i: int| 0 <= i < tx.outputs@.len() && type_hash_is(#[trigger] tx.outputs@[i], a.script_hash)
}

/// Burning against the metadata needs its mint authority: an accepted burn or destruction with
/// the metadata among the inputs has that metadata carry a mint authority, and the cell it names
/// is in the transaction.
pub proof fn lemma_burn_needs_mint_authority(tx: TxView, hash: Seq<u8>, delta: nat)
    requires
        burn_outcome(tx, hash, delta) is Ok,
        meta_in(tx.inputs@, hash) matches Ok(Some(_)),
    ensures
        meta_in(tx.inputs@, hash) matches Ok(Some(input))
            && input.mint_authority matches Some(a) && named_cell_present(tx, a),
{
}

/// Minting against visible metadata needs its mint authority: an accepted mint under metadata
/// the script sees has that metadata carry a mint authority, and the cell it names is in the
/// transaction.
pub proof fn lemma_mint_needs_mint_authority(tx: TxView, hash: Seq<u8>, delta: nat)
    requires
        mint_outcome(tx, hash, delta) is Ok,
        visible_meta(tx, hash) matches Ok(Some(_)),
    ensures
        visible_meta(tx, hash) matches Ok(Some(v))
            && v.mint_authority matches Some(a) && named_cell_present(tx, a),
{
}

} // verus!
