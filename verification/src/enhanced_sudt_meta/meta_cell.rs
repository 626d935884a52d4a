//! Enhanced sUDT metadata cell: parsing, the group's metadata, and the creation rules.
use vstd::prelude::*;
use crate::bytes::{le_at, le_value};
use crate::chain::{bound_cell, bound_script, is_bound_script, CellView, Source, TxView};
use crate::config::flag_set;
use crate::enhanced_sudt_meta::error::Error;
use crate::molecule::{
    byte_at_range, exact_table, sized_table, sized_table_offsets, header_offsets, lemma_offsets_ordered,
    offsets_match, u128_at_range, u32_at,
};
use crate::sys::SysErrorKind;

verus! {

/// The flag bit that turns supply tracking on.
pub const CONFIG_SUPPLY_TRACKED: u8 = 0b0000_0001;

/// Number of fields of the sUDT metadata table.
pub const SUDT_META_FIELDS: usize = 9;

/// The only flags sUDT metadata may set.
pub const SUDT_ALLOWED_CONFIG_MASK: u8 = 0b0000_0001;

/// Width of the token code hash that tracked metadata keeps in its extra data.
pub const UDT_CODE_HASH_CONFIG_LEN: usize = 32;

/// The parts of sUDT metadata this script reads.
#[derive(Clone, Copy, Debug)]
pub struct SudtMeta {
    pub config_flags: u8,
    pub current_supply: u128,
    pub udt_code_hash: Option<[u8; 32]>,
}

/// The value of sUDT metadata.
pub struct SudtMetaV {
    pub config_flags: u8,
    pub current_supply: nat,
    pub udt_code_hash: Option<Seq<u8>>,
}

impl View for SudtMeta {
    type V = SudtMetaV;

    open spec fn view(&self) -> SudtMetaV {
        SudtMetaV {
            config_flags: self.config_flags,
            current_supply: self.current_supply as nat,
            udt_code_hash: match self.udt_code_hash {
                Some(h) => Some(h@),
                None => None,
            },
        }
    }
}

/// The metadata cells of the script group: consumed, produced, and the group's type hash.
pub struct MetaGroup {
    pub input: Option<SudtMeta>,
    pub output: Option<SudtMeta>,
    pub meta_type_hash: [u8; 32],
}

/// The bytes of a Molecule `Bytes` value in `d[start..end]`: a little-endian length word and
/// exactly that many bytes.
pub open spec fn molecule_bytes_of(d: Seq<u8>, start: int, end: int) -> Option<Seq<u8>> {
    if end < start + 4 || end > d.len() {
        None
    } else if start + 4 + le_at(d, start, 4) != end {
        None
    } else {
        Some(d.subrange(start + 4, end))
    }
}

/// The token code hash kept in the extra data: none when empty, else exactly 32 bytes.
pub open spec fn code_hash_config_of(d: Seq<u8>, start: int, end: int) -> Option<Option<Seq<u8>>> {
    match molecule_bytes_of(d, start, end) {
        None => None,
        Some(b) => if b.len() == 0 {
            Some(None)
        } else if b.len() != 32 {
            None
        } else {
            Some(Some(b))
        },
    }
}

/// The metadata a 9-field table encodes: one flags byte with only the supply-tracked bit, a
/// 16-byte supply, a decimals byte, and the token code hash in the extra data (field 6).
pub open spec fn sudt_meta_of(d: Seq<u8>) -> Result<SudtMetaV, Error> {
    let o = header_offsets(d, 9);
    if !exact_table(d, 9) || o[1] != o[0] + 1 {
        Err(Error::InvalidMetaData)
    } else if d[o[0]] & !SUDT_ALLOWED_CONFIG_MASK != 0 {
        Err(Error::InvalidMetaData)
    } else if o[2] != o[1] + 16 || o[3] != o[2] + 1 {
        Err(Error::InvalidMetaData)
    } else {
        match code_hash_config_of(d, o[6], o[7]) {
            None => Err(Error::InvalidMetaData),
            Some(h) => {
                let flags = d[o[0]];
                let supply = le_at(d, o[1], 16);
                if !flag_set(flags, CONFIG_SUPPLY_TRACKED) && supply != 0 {
                    Err(Error::InvalidSupply)
                } else {
                    Ok(SudtMetaV { config_flags: flags, current_supply: supply, udt_code_hash: h })
                }
            },
        }
    }
}

/// The value of a parse.
pub open spec fn parsed_v(r: Result<SudtMeta, Error>) -> Result<SudtMetaV, Error> {
    match r {
        Ok(m) => Ok(m@),
        Err(e) => Err(e),
    }
}

/// The metadata of a group source: none, the one cell's parsed metadata, or an error when it
/// does not parse or a second cell exists.
pub open spec fn group_meta_of(cells: Seq<CellView>) -> Result<Option<SudtMetaV>, Error> {
    if cells.len() == 0 {
        Ok(None)
    } else {
        match sudt_meta_of(cells[0].data@) {
            Err(e) => Err(e),
            Ok(m) => if cells.len() > 1 {
                Err(Error::InvalidArgs)
            } else {
                Ok(Some(m))
            },
        }
    }
}

/// The value of a group lookup.
pub open spec fn group_v(r: Result<Option<SudtMeta>, Error>) -> Result<Option<SudtMetaV>, Error> {
    match r {
        Ok(Some(m)) => Ok(Some(m@)),
        Ok(None) => Ok(None),
        Err(e) => Err(e),
    }
}

/// The amount a token cell's data holds: exactly 16 bytes, little endian.
pub open spec fn amount_of(d: Seq<u8>) -> Result<nat, Error> {
    if d.len() != 16 {
        Err(Error::InvalidSupply)
    } else {
        Ok(le_value(d))
    }
}

/// The total amount of the bound token cells among the first `n` cells.
pub open spec fn initial_upto(cells: Seq<CellView>, hash: Seq<u8>, code: Seq<u8>, n: nat) -> Result<
    nat,
    Error,
>
    decreases n,
{
    if n == 0 {
        Ok(0)
    } else {
        match initial_upto(cells, hash, code, (n - 1) as nat) {
            Err(e) => Err(e),
            Ok(t) => if !bound_cell(cells[n - 1], hash, code) {
                Ok(t)
            } else {
                match amount_of(cells[n - 1].data@) {
                    Err(e) => Err(e),
                    Ok(v) => if t + v > u128::MAX {
                        Err(Error::InvalidSupply)
                    } else {
                        Ok(t + v)
                    },
                }
            },
        }
    }
}

/// A failure in the first `k` cells is the failure of every longer run.
pub proof fn lemma_initial_err_sticky(cells: Seq<CellView>, hash: Seq<u8>, code: Seq<u8>, k: nat, m: nat)
    requires
        k <= m,
        initial_upto(cells, hash, code, k) is Err,
    ensures
        initial_upto(cells, hash, code, m) == initial_upto(cells, hash, code, k),
    decreases m - k,
{
    if k < m {
        lemma_initial_err_sticky(cells, hash, code, k, (m - 1) as nat);
    }
}

/// The outcome of creating metadata: tracked supply must equal the amount minted into bound
/// token outputs of the code hash the metadata names; untracked supply must be zero.
pub open spec fn create_outcome(tx: TxView, m: SudtMetaV, hash: Seq<u8>) -> Result<(), Error> {
    if flag_set(m.config_flags, CONFIG_SUPPLY_TRACKED) {
        match m.udt_code_hash {
            None => Err(Error::InvalidMetaData),
            Some(code) => match initial_upto(tx.outputs@, hash, code, tx.outputs@.len()) {
                Err(e) => Err(e),
                Ok(total) => if m.current_supply != total {
                    Err(Error::InvalidSupply)
                } else {
                    Ok(())
                },
            },
        }
    } else if m.current_supply != 0 {
        Err(Error::InvalidSupply)
    } else {
        Ok(())
    }
}

/// Reads the metadata of the script group.
pub fn load_meta_group(tx: &TxView) -> (r: Result<MetaGroup, Error>)
    ensures
        match r {
            Ok(g) => {
                &&& group_meta_of(tx.group_inputs@) == group_v(Ok(g.input))
                &&& group_meta_of(tx.group_outputs@) == group_v(Ok(g.output))
                &&& g.meta_type_hash == tx.script_hash
            },
            Err(e) => group_meta_of(tx.group_inputs@) == Err::<Option<SudtMetaV>, Error>(e) || (
            group_meta_of(tx.group_inputs@) is Ok && group_meta_of(tx.group_outputs@) == Err::<
                Option<SudtMetaV>,
                Error,
            >(e)),
        },
{
    let input = load_group_meta(tx, Source::GroupInput)?;
    let output = load_group_meta(tx, Source::GroupOutput)?;
    Ok(MetaGroup { input, output, meta_type_hash: tx.script_hash })
}

/// The script's arguments must be 32 bytes.
pub fn validate_type_args(tx: &TxView) -> (r: Result<(), Error>)
    ensures
        r is Ok <==> tx.script_args@.len() == 32,
        r matches Err(e) ==> e == Error::InvalidArgs,
{
    if tx.script_args.len() != 32 {
        return Err(Error::InvalidArgs);
    }
    Ok(())
}

/// A creation needs the type-id rule to hold; any failure of it is an invalid type id.
pub fn validate_create_type_id(type_id_check: Result<(), SysErrorKind>) -> (r: Result<(), Error>)
    ensures
        r is Ok <==> type_id_check is Ok,
        r matches Err(e) ==> e == Error::InvalidTypeId,
{
    match type_id_check {
        Ok(()) => Ok(()),
        Err(_) => Err(Error::InvalidTypeId),
    }
}

/// Checks the supply of metadata being created.
pub fn validate_create(tx: &TxView, output_meta: &SudtMeta, meta_type_hash: &[u8; 32]) -> (r: Result<
    (),
    Error,
>)
    ensures
        r == create_outcome(*tx, output_meta@, meta_type_hash@),
{
    if is_supply_tracked(output_meta.config_flags) {
        let udt_code_hash = match output_meta.udt_code_hash {
            Some(h) => h,
            None => return Err(Error::InvalidMetaData),
        };
        let initial_supply = sum_initial_udt_outputs(tx, meta_type_hash, &udt_code_hash)?;
        if output_meta.current_supply != initial_supply {
            return Err(Error::InvalidSupply);
        }
    } else if output_meta.current_supply != 0 {
        return Err(Error::InvalidSupply);
    }
    Ok(())
}

/// The total amount of the token outputs bound to this metadata with the given code hash.
pub fn sum_initial_udt_outputs(tx: &TxView, meta_type_hash: &[u8; 32], udt_code_hash: &[u8; 32]) -> (r:
    Result<u128, Error>)
    ensures
        match r {
            Ok(v) => initial_upto(tx.outputs@, meta_type_hash@, udt_code_hash@, tx.outputs@.len())
                == Ok::<nat, Error>(v as nat),
            Err(e) => initial_upto(tx.outputs@, meta_type_hash@, udt_code_hash@, tx.outputs@.len())
                == Err::<nat, Error>(e),
        },
{
    let cells = &tx.outputs;
    let mut total: u128 = 0;
    let mut index: usize = 0;
    while index < cells.len()
        invariant
            index <= cells@.len(),
            cells@ == tx.outputs@,
            initial_upto(cells@, meta_type_hash@, udt_code_hash@, index as nat) == Ok::<nat, Error>(
                total as nat,
            ),
        decreases cells@.len() - index,
    {
        let bound = match &cells[index].type_script {
            Some(s) => is_initial_udt_script(s, meta_type_hash, udt_code_hash),
            None => false,
        };
        if bound {
            let amount = match decode_amount(cells[index].data.as_slice()) {
                Ok(a) => a,
                Err(e) => {
                    proof {
                        lemma_initial_err_sticky(cells@, meta_type_hash@, udt_code_hash@, (index + 1) as nat, cells@.len());
                    }
                    return Err(e);
                },
            };
            total = match total.checked_add(amount) {
                Some(t) => t,
                None => {
                    proof {
                        lemma_initial_err_sticky(cells@, meta_type_hash@, udt_code_hash@, (index + 1) as nat, cells@.len());
                    }
                    return Err(Error::InvalidSupply);
                },
            };
        }
        index = index + 1;
    }
    Ok(total)
}

/// The token amount of a cell's data; the data must be exactly 16 bytes.
pub fn decode_amount(data: &[u8]) -> (r: Result<u128, Error>)
    ensures
        match r {
            Ok(v) => amount_of(data@) == Ok::<nat, Error>(v as nat),
            Err(e) => amount_of(data@) == Err::<nat, Error>(e),
        },
{
    if data.len() != 16 {
        return Err(Error::InvalidSupply);
    }
    let v = crate::bytes::le_u128_at(data, 0);
    assert(data@.subrange(0, 16) =~= data@);
    Ok(v)
}

/// The one metadata cell of a group source, parsed; a second one is an error.
pub fn load_group_meta(tx: &TxView, source: Source) -> (r: Result<Option<SudtMeta>, Error>)
    requires
        source == Source::GroupInput || source == Source::GroupOutput,
    ensures
        group_v(r) == group_meta_of(tx.cells_of(source)),
{
    let cells = tx.cells(source);
    if cells.len() == 0 {
        return Ok(None);
    }
    let meta = parse_meta(cells[0].data.as_slice())?;
    if cells.len() > 1 {
        return Err(Error::InvalidArgs);
    }
    Ok(Some(meta))
}

/// Parses sUDT metadata that keeps the token code hash in its extra data.
pub fn parse_meta(data: &[u8]) -> (r: Result<SudtMeta, Error>)
    ensures
        parsed_v(r) == sudt_meta_of(data@),
{
    let offsets = table_offsets(data, SUDT_META_FIELDS)?;
    proof {
        assert(offsets@[0] as int == header_offsets(data@, 9)[0]);
        assert(offsets@[1] as int == header_offsets(data@, 9)[1]);
        assert(offsets@[2] as int == header_offsets(data@, 9)[2]);
        assert(offsets@[3] as int == header_offsets(data@, 9)[3]);
        assert(offsets@[6] as int == header_offsets(data@, 9)[6]);
        assert(offsets@[7] as int == header_offsets(data@, 9)[7]);
        lemma_offsets_ordered(data@, 9);
    }
    let config_flags = single_byte_field(data, offsets[0], offsets[1])?;
    if config_flags & !SUDT_ALLOWED_CONFIG_MASK != 0 {
        return Err(Error::InvalidMetaData);
    }

    let current_supply = u128_field(data, offsets[1], offsets[2])?;
    let _decimals = single_byte_field(data, offsets[2], offsets[3])?;
    let udt_code_hash = udt_code_hash_config(data, offsets[6], offsets[7])?;

    if !is_supply_tracked(config_flags) && current_supply != 0 {
        return Err(Error::InvalidSupply);
    }

    Ok(SudtMeta { config_flags, current_supply, udt_code_hash })
}

/// Whether a type script is a token script bound to this metadata with the given code hash.
pub fn is_initial_udt_script(type_script: &crate::chain::ScriptView, meta_type_hash: &[u8; 32], udt_code_hash: &[u8; 32]) -> (r: bool)
    ensures
        r == bound_script(*type_script, meta_type_hash@, udt_code_hash@),
{
    is_bound_script(type_script, meta_type_hash, udt_code_hash)
}

/// Whether the supply-tracking flag is set.
pub fn is_supply_tracked(config_flags: u8) -> (r: bool)
    ensures
        r == flag_set(config_flags, CONFIG_SUPPLY_TRACKED),
{
    config_flags & CONFIG_SUPPLY_TRACKED != 0
}

/// Reads the offsets of a table of exactly `fields` fields.
pub fn table_offsets(data: &[u8], fields: usize) -> (r: Result<Vec<usize>, Error>)
    ensures
        r is Ok <==> sized_table(data@, fields as nat),
        r matches Ok(o) ==> offsets_match(o@, data@, fields as nat),
        r matches Err(e) ==> e == Error::InvalidMetaData,
{
    match sized_table_offsets(data, fields) {
        Some(o) => Ok(o),
        None => Err(Error::InvalidMetaData),
    }
}

/// The single byte `data[start..end]`.
pub fn single_byte_field(data: &[u8], start: usize, end: usize) -> (r: Result<u8, Error>)
    ensures
        r is Ok <==> (end == start + 1 && end <= data@.len()),
        r matches Ok(b) ==> b == data@[start as int],
        r matches Err(e) ==> e == Error::InvalidMetaData,
{
    match byte_at_range(data, start, end) {
        Some(b) => Ok(b),
        None => Err(Error::InvalidMetaData),
    }
}

/// The little-endian `u128` in `data[start..end]`.
pub fn u128_field(data: &[u8], start: usize, end: usize) -> (r: Result<u128, Error>)
    ensures
        r is Ok <==> (end == start + 16 && end <= data@.len()),
        r matches Ok(v) ==> v as nat == le_at(data@, start as int, 16),
        r matches Err(e) ==> e == Error::InvalidMetaData,
{
    match u128_at_range(data, start, end) {
        Some(v) => Ok(v),
        None => Err(Error::InvalidMetaData),
    }
}

/// The token code hash kept in the extra data field `data[start..end]`.
pub fn udt_code_hash_config(data: &[u8], start: usize, end: usize) -> (r: Result<Option<[u8; 32]>, Error>)
    ensures
        match r {
            Ok(Some(h)) => code_hash_config_of(data@, start as int, end as int) == Some(Some(h@)),
            Ok(None) => code_hash_config_of(data@, start as int, end as int) == Some(None::<Seq<u8>>),
            Err(e) => code_hash_config_of(data@, start as int, end as int) is None && e == Error::InvalidMetaData,
        },
{
    let extra_data = molecule_bytes(data, start, end)?;
    if extra_data.len() == 0 {
        return Ok(None);
    }
    if extra_data.len() != UDT_CODE_HASH_CONFIG_LEN {
        return Err(Error::InvalidMetaData);
    }
    let code_hash = crate::bytes::copy_byte32(extra_data, 0);
    assert(extra_data@.subrange(0, 32) =~= extra_data@);
    Ok(Some(code_hash))
}

/// The bytes of a Molecule `Bytes` value in `data[start..end]`.
pub fn molecule_bytes(data: &[u8], start: usize, end: usize) -> (r: Result<&[u8], Error>)
    ensures
        match r {
            Ok(b) => molecule_bytes_of(data@, start as int, end as int) == Some(b@),
            Err(e) => molecule_bytes_of(data@, start as int, end as int) is None && e == Error::InvalidMetaData,
        },
{
    if end < start || end - start < 4 || end > data.len() {
        return Err(Error::InvalidMetaData);
    }
    let len = read_u32(data, start)? as usize;
    let bytes_start = start + 4;
    let bytes_end = match bytes_start.checked_add(len) {
        Some(e) => e,
        None => return Err(Error::InvalidMetaData),
    };
    if bytes_end != end {
        return Err(Error::InvalidMetaData);
    }
    Ok(vstd::slice::slice_subrange(data, bytes_start, bytes_end))
}

/// The little-endian `u32` at `start`.
pub fn read_u32(data: &[u8], start: usize) -> (r: Result<u32, Error>)
    ensures
        r is Ok <==> start + 4 <= data@.len(),
        r matches Ok(v) ==> v as nat == le_at(data@, start as int, 4),
        r matches Err(e) ==> e == Error::InvalidMetaData,
{
    match u32_at(data, start) {
        Some(v) => Ok(v),
        None => Err(Error::InvalidMetaData),
    }
}

} // verus!
