//! The sUDT metadata cell: the group's metadata cells, their locks, their data, and the supply
//! minted when metadata is created.
use vstd::prelude::*;
use crate::byte32::byte32_eq;
use crate::bytes::{le_at, le_u128_at, sub_vec};
use crate::chain::{bound_cell, bound_script, is_bound_script, CellView, ScriptView, Source, TxView};
use crate::config::{flag_set, CONFIG_SUPPLY_TRACKED};
use crate::molecule::{exact_table, sized_table, sized_table_offsets, header_offsets, lemma_offsets_ordered, offsets_match, u32_at};
use crate::sudt_meta::error::Error;
use crate::sys::SysErrorKind;
use crate::types::{auth_opt_v, clone_authority_opt, Authority, AuthorityV, SudtMeta};

verus! {

/// Number of fields of the sUDT metadata table.
pub const SUDT_META_FIELDS: usize = 9;

/// The code hash of the always-success lock a metadata cell must be locked with.
pub open spec fn always_success_lock_code_hash() -> Seq<u8> {
    seq![
        0x3bu8, 0x52, 0x1c, 0xc4, 0xb5, 0x52, 0xf1, 0x09, 0xd0, 0x92, 0xd8, 0xcc, 0x46, 0x8a, 0x80,
        0x48, 0xac, 0xb5, 0x3c, 0x59, 0x52, 0xdb, 0xe7, 0x69, 0xd2, 0xb2, 0xf9, 0xcf, 0x6e, 0x47,
        0xf7, 0xf1,
    ]
}

/// sUDT metadata as an update compares it: flags, supply, the raw bytes of the metadata fields
/// and of each authority, and the decoded authorities.
pub struct ParsedSudtMeta {
    pub config_flags: u8,
    pub current_supply: u128,
    pub metadata_fields: Vec<u8>,
    pub mint_authority_raw: Vec<u8>,
    pub metadata_authority_raw: Vec<u8>,
    pub mint_authority: Option<Authority>,
    pub metadata_authority: Option<Authority>,
}

/// The value of parsed sUDT metadata.
pub struct ParsedSudtMetaV {
    pub config_flags: u8,
    pub current_supply: u128,
    pub metadata_fields: Seq<u8>,
    pub mint_authority_raw: Seq<u8>,
    pub metadata_authority_raw: Seq<u8>,
    pub mint_authority: Option<AuthorityV>,
    pub metadata_authority: Option<AuthorityV>,
}

impl View for ParsedSudtMeta {
    type V = ParsedSudtMetaV;

    open spec fn view(&self) -> ParsedSudtMetaV {
        ParsedSudtMetaV {
            config_flags: self.config_flags,
            current_supply: self.current_supply,
            metadata_fields: self.metadata_fields@,
            mint_authority_raw: self.mint_authority_raw@,
            metadata_authority_raw: self.metadata_authority_raw@,
            mint_authority: auth_opt_v(self.mint_authority),
            metadata_authority: auth_opt_v(self.metadata_authority),
        }
    }
}

/// The metadata cells of the script group, parsed: consumed, produced, and the group's type
/// hash.
pub struct MetaGroup {
    pub input: Option<ParsedSudtMeta>,
    pub output: Option<ParsedSudtMeta>,
    pub meta_type_hash: [u8; 32],
}

/// What metadata data parses to, given the table decoded from it: a 9-field table that decodes;
/// the raw bytes of fields `2..7`, `7` and `8`.
pub open spec fn parsed_of(d: Seq<u8>, decoded: Option<SudtMeta>) -> Result<ParsedSudtMetaV, Error> {
    let o = header_offsets(d, 9);
    if !exact_table(d, 9) {
        Err(Error::InvalidMetaData)
    } else {
        match decoded {
            None => Err(Error::InvalidMetaData),
            Some(m) => Ok(ParsedSudtMetaV {
                config_flags: m.config_flags,
                current_supply: m.current_supply,
                metadata_fields: d.subrange(o[2], o[7]),
                mint_authority_raw: d.subrange(o[7], o[8]),
                metadata_authority_raw: d.subrange(o[8], o[9]),
                mint_authority: auth_opt_v(m.mint_authority),
                metadata_authority: auth_opt_v(m.metadata_authority),
            }),
        }
    }
}

/// The value of a parse.
pub open spec fn parsed_v(r: Result<ParsedSudtMeta, Error>) -> Result<ParsedSudtMetaV, Error> {
    match r {
        Ok(m) => Ok(m@),
        Err(e) => Err(e),
    }
}

/// The lock of a metadata cell is the always-success lock.
pub open spec fn lock_allowed(c: CellView) -> bool {
    c.lock.code_hash@ == always_success_lock_code_hash()
}

/// The metadata of a group source: none, or exactly one cell (an output one locked with the
/// always-success lock) whose data parses.
pub open spec fn group_meta_of(cells: Seq<CellView>, decoded: Seq<Option<SudtMeta>>, output: bool) -> Result<Option<ParsedSudtMetaV>, Error> {
    if cells.len() == 0 {
        Ok(None)
    } else if output && !lock_allowed(cells[0]) {
        Err(Error::InvalidArgs)
    } else {
        match parsed_of(cells[0].data@, decoded[0]) {
            Err(e) => Err(e),
            Ok(m) => if cells.len() > 1 {
                Err(Error::InvalidArgs)
            } else {
                Ok(Some(m))
            },
        }
    }
}

/// The value of a group lookup.
pub open spec fn group_v(r: Result<Option<ParsedSudtMeta>, Error>) -> Result<Option<ParsedSudtMetaV>, Error> {
    match r {
        Ok(Some(m)) => Ok(Some(m@)),
        Ok(None) => Ok(None),
        Err(e) => Err(e),
    }
}

/// The amount a token cell's data holds: its first 16 bytes, little endian.
pub open spec fn amount_of(d: Seq<u8>) -> Result<nat, Error> {
    if d.len() < 16 {
        Err(Error::InvalidSupply)
    } else {
        Ok(le_at(d, 0, 16))
    }
}

/// The total amount of the bound token cells among the first `n` cells; a short amount or a
/// total past `u128::MAX` is an invalid supply.
pub open spec fn initial_upto(cells: Seq<CellView>, hash: Seq<u8>, code: Seq<u8>, n: nat) -> Result<nat, Error>
    decreases n,
{
    if n == 0 {
        Ok(0)
    } else {
        match initial_upto(cells, hash, code, (n - 1) as nat) {
            Err(e) => Err(e),
            Ok(t) => if !bound_cell(cells[n - 1], hash, code) {
                Ok(t)
            } else {
                match amount_of(cells[n - 1].data@) {
                    Err(e) => Err(e),
                    Ok(v) => if t + v > u128::MAX {
                        Err(Error::InvalidSupply)
                    } else {
                        Ok(t + v)
                    },
                }
            },
        }
    }
}

/// The outcome of creating metadata: tracked supply equals the amount minted into the bound
/// token outputs; untracked supply is zero.
pub open spec fn create_outcome(tx: TxView, flags: u8, supply: nat, hash: Seq<u8>, code: Seq<u8>) -> Result<(), Error> {
    if flag_set(flags, CONFIG_SUPPLY_TRACKED) {
        match initial_upto(tx.outputs@, hash, code, tx.outputs@.len()) {
            Err(e) => Err(e),
            Ok(total) => if supply != total {
                Err(Error::InvalidSupply)
            } else {
                Ok(())
            },
        }
    } else if supply != 0 {
        Err(Error::InvalidSupply)
    } else {
        Ok(())
    }
}

/// Whether a lock code hash is the always-success lock's.
pub fn is_allowed_always_success_lock_code_hash(code_hash: &[u8; 32]) -> (r: bool)
    ensures
        r == (code_hash@ == always_success_lock_code_hash()),
{
    let allowed: [u8; 32] = [
        0x3b, 0x52, 0x1c, 0xc4, 0xb5, 0x52, 0xf1, 0x09, 0xd0, 0x92, 0xd8, 0xcc, 0x46, 0x8a, 0x80,
        0x48, 0xac, 0xb5, 0x3c, 0x59, 0x52, 0xdb, 0xe7, 0x69, 0xd2, 0xb2, 0xf9, 0xcf, 0x6e, 0x47,
        0xf7, 0xf1,
    ];
    assert(allowed@ =~= always_success_lock_code_hash());
    byte32_eq(code_hash, &allowed)
}

/// Reads the group's metadata cells.
pub fn load_meta_group(
    tx: &TxView,
    input_decoded: &Vec<Option<SudtMeta>>,
    output_decoded: &Vec<Option<SudtMeta>>,
) -> (r: Result<MetaGroup, Error>)
    requires
        input_decoded@.len() == tx.group_inputs@.len(),
        output_decoded@.len() == tx.group_outputs@.len(),
    ensures
        match r {
            Ok(g) => {
                &&& group_meta_of(tx.group_inputs@, input_decoded@, false) == group_v(Ok(g.input))
                &&& group_meta_of(tx.group_outputs@, output_decoded@, true) == group_v(Ok(g.output))
                &&& g.meta_type_hash == tx.script_hash
            },
            Err(e) => group_meta_of(tx.group_inputs@, input_decoded@, false) == Err::<Option<ParsedSudtMetaV>, Error>(e)
                || (group_meta_of(tx.group_inputs@, input_decoded@, false) is Ok
                    && group_meta_of(tx.group_outputs@, output_decoded@, true) == Err::<Option<ParsedSudtMetaV>, Error>(e)),
        },
{
    let input = load_group_meta(tx, Source::GroupInput, input_decoded)?;
    let output = load_group_meta(tx, Source::GroupOutput, output_decoded)?;
    Ok(MetaGroup { input, output, meta_type_hash: tx.script_hash })
}

/// The script's arguments must be 32 bytes.
pub fn validate_type_args(tx: &TxView) -> (r: Result<(), Error>)
    ensures
        r is Ok <==> tx.script_args@.len() == 32,
        r matches Err(e) ==> e == Error::InvalidArgs,
{
    if tx.script_args.len() != 32 {
        return Err(Error::InvalidArgs);
    }
    Ok(())
}

/// A creation needs the type-id rule to hold; any failure of it is an invalid type id.
pub fn validate_create_type_id(type_id_check: Result<(), SysErrorKind>) -> (r: Result<(), Error>)
    ensures
        r is Ok <==> type_id_check is Ok,
        r matches Err(e) ==> e == Error::InvalidTypeId,
{
    match type_id_check {
        Ok(()) => Ok(()),
        Err(_) => Err(Error::InvalidTypeId),
    }
}

/// Checks the supply of metadata being created; `udt_code_hash` is the code hash of the sUDT
/// script bound to it.
pub fn validate_create(tx: &TxView, output_meta: &ParsedSudtMeta, meta_type_hash: &[u8; 32], udt_code_hash: &[u8; 32]) -> (r: Result<(), Error>)
    ensures
        r == create_outcome(*tx, output_meta.config_flags, output_meta.current_supply as nat, meta_type_hash@, udt_code_hash@),
{
    if is_supply_tracked(output_meta.config_flags) {
        let initial_supply = sum_initial_udt_outputs(tx, meta_type_hash, udt_code_hash)?;
        if output_meta.current_supply != initial_supply {
            return Err(Error::InvalidSupply);
        }
    } else if output_meta.current_supply != 0 {
        return Err(Error::InvalidSupply);
    }
    Ok(())
}

/// A failure in the first `k` cells is the failure of every longer run.
pub proof fn lemma_initial_err_sticky(cells: Seq<CellView>, hash: Seq<u8>, code: Seq<u8>, k: nat, m: nat)
    requires
        k <= m,
        initial_upto(cells, hash, code, k) is Err,
    ensures
        initial_upto(cells, hash, code, m) == initial_upto(cells, hash, code, k),
    decreases m - k,
{
    if k < m {
        lemma_initial_err_sticky(cells, hash, code, k, (m - 1) as nat);
    }
}

/// The total amount of the token outputs bound to this metadata with the given code hash.
pub fn sum_initial_udt_outputs(tx: &TxView, meta_type_hash: &[u8; 32], udt_code_hash: &[u8; 32]) -> (r: Result<u128, Error>)
    ensures
        match r {
            Ok(v) => initial_upto(tx.outputs@, meta_type_hash@, udt_code_hash@, tx.outputs@.len()) == Ok::<nat, Error>(v as nat),
            Err(e) => initial_upto(tx.outputs@, meta_type_hash@, udt_code_hash@, tx.outputs@.len()) == Err::<nat, Error>(e),
        },
{
    let cells = &tx.outputs;
    let mut total: u128 = 0;
    let mut index: usize = 0;
    while index < cells.len()
        invariant
            index <= cells@.len(),
            cells@ == tx.outputs@,
            initial_upto(cells@, meta_type_hash@, udt_code_hash@, index as nat) == Ok::<nat, Error>(total as nat),
        decreases cells@.len() - index,
    {
        let bound = match &cells[index].type_script {
            Some(s) => is_initial_udt_script(s, meta_type_hash, udt_code_hash),
            None => false,
        };
        if bound {
            let amount = match decode_amount(cells[index].data.as_slice()) {
                Ok(a) => a,
                Err(e) => {
                    proof {
                        lemma_initial_err_sticky(cells@, meta_type_hash@, udt_code_hash@, (index + 1) as nat, cells@.len());
                    }
                    return Err(e);
                },
            };
            total = match total.checked_add(amount) {
                Some(t) => t,
                None => {
                    proof {
                        lemma_initial_err_sticky(cells@, meta_type_hash@, udt_code_hash@, (index + 1) as nat, cells@.len());
                    }
                    return Err(Error::InvalidSupply);
                },
            };
        }
        index = index + 1;
    }
    Ok(total)
}

/// The token amount of a cell's data: its first 16 bytes, which must be there.
pub fn decode_amount(data: &[u8]) -> (r: Result<u128, Error>)
    ensures
        match r {
            Ok(v) => amount_of(data@) == Ok::<nat, Error>(v as nat),
            Err(e) => amount_of(data@) == Err::<nat, Error>(e),
        },
{
    if data.len() < 16 {
        return Err(Error::InvalidSupply);
    }
    Ok(le_u128_at(data, 0))
}

/// The metadata of a group source; `decoded[i]` is the table decoded from cell `i`'s data.
pub fn load_group_meta(tx: &TxView, source: Source, decoded: &Vec<Option<SudtMeta>>) -> (r: Result<Option<ParsedSudtMeta>, Error>)
    requires
        source == Source::GroupInput || source == Source::GroupOutput,
        decoded@.len() == tx.cells_of(source).len(),
    ensures
        group_v(r) == group_meta_of(tx.cells_of(source), decoded@, source == Source::GroupOutput),
{
    let cells = tx.cells(source);
    if cells.len() == 0 {
        return Ok(None);
    }
    if source == Source::GroupOutput {
        validate_meta_lock(&cells[0])?;
    }
    let meta = parse_meta(cells[0].data.as_slice(), &decoded[0])?;
    if cells.len() > 1 {
        return Err(Error::InvalidArgs);
    }
    Ok(Some(meta))
}

/// A produced metadata cell must be locked with the always-success lock.
pub fn validate_meta_lock(cell: &CellView) -> (r: Result<(), Error>)
    ensures
        r is Ok <==> lock_allowed(*cell),
        r matches Err(e) ==> e == Error::InvalidArgs,
{
    if is_allowed_always_success_lock_code_hash(&cell.lock.code_hash) {
        Ok(())
    } else {
        Err(Error::InvalidArgs)
    }
}

/// Parses metadata data, given the table decoded from it (`None` where it does not decode).
pub fn parse_meta(data: &[u8], decoded: &Option<SudtMeta>) -> (r: Result<ParsedSudtMeta, Error>)
    ensures
        parsed_v(r) == parsed_of(data@, *decoded),
{
    let offsets = table_offsets(data, SUDT_META_FIELDS)?;
    proof {
        assert forall|k: int| 0 <= k <= 9 implies offsets@[k] as int == #[trigger] header_offsets(data@, 9)[k] by {
            assert(offsets@[k] as int == header_offsets(data@, 9)[k]);
        }
        lemma_offsets_ordered(data@, 9);
        let o = header_offsets(data@, 9);
        assert(o[2] <= o[7] && o[7] <= o[8] && o[8] <= o[9]);
    }
    let meta = match decoded {
        Some(m) => m,
        None => return Err(Error::InvalidMetaData),
    };
    let metadata_fields = sub_vec(data, offsets[2], offsets[7]);
    let mint_authority_raw = sub_vec(data, offsets[7], offsets[8]);
    let metadata_authority_raw = sub_vec(data, offsets[8], offsets[9]);
    Ok(ParsedSudtMeta {
        config_flags: meta.config_flags,
        current_supply: meta.current_supply,
        metadata_fields,
        mint_authority_raw,
        metadata_authority_raw,
        mint_authority: clone_authority_opt(&meta.mint_authority),
        metadata_authority: clone_authority_opt(&meta.metadata_authority),
    })
}

/// Whether a type script is a token script bound to this metadata with the given code hash.
pub fn is_initial_udt_script(type_script: &ScriptView, meta_type_hash: &[u8; 32], udt_code_hash: &[u8; 32]) -> (r: bool)
    ensures
        r == bound_script(*type_script, meta_type_hash@, udt_code_hash@),
{
    is_bound_script(type_script, meta_type_hash, udt_code_hash)
}

/// Whether the supply-tracking flag is set.
pub fn is_supply_tracked(config_flags: u8) -> (r: bool)
    ensures
        r == flag_set(config_flags, CONFIG_SUPPLY_TRACKED),
{
    config_flags & CONFIG_SUPPLY_TRACKED != 0
}

/// Reads the offsets of a table of exactly `fields` fields, the total size closing the list.
pub fn table_offsets(data: &[u8], fields: usize) -> (r: Result<Vec<usize>, Error>)
    ensures
        r is Ok <==> sized_table(data@, fields as nat),
        r matches Ok(o) ==> offsets_match(o@, data@, fields as nat),
        r matches Err(e) ==> e == Error::InvalidMetaData,
{
    match sized_table_offsets(data, fields) {
        Some(o) => Ok(o),
        None => Err(Error::InvalidMetaData),
    }
}

/// The little-endian `u32` at `start`.
pub fn read_u32(data: &[u8], start: usize) -> (r: Result<u32, Error>)
    ensures
        r is Ok <==> start + 4 <= data@.len(),
        r matches Ok(v) ==> v as nat == le_at(data@, start as int, 4),
        r matches Err(e) ==> e == Error::InvalidMetaData,
{
    match u32_at(data, start) {
        Some(v) => Ok(v),
        None => Err(Error::InvalidMetaData),
    }
}

} // verus!
