//! Enhanced xUDT metadata cell: parsing (authorities, extensions, AccessList shards), the
//! group's metadata, and what the transaction's other cells hold.
use vstd::prelude::*;
use crate::byte32::{byte32_eq, byte32_lt, is_max32, is_zero32, lex_le, lex_lt, max32, zero32};
use crate::bytes::{le_at, le_value};
use crate::chain::{bound_cell, bound_script, is_bound_script, CellView, CodeHashes, ScriptView, Source, TxView};
use crate::config::{flag_set, CONFIG_ACCESS_ENABLED, CONFIG_ACCESS_WHITELIST, CONFIG_PAUSED, CONFIG_SUPPLY_TRACKED};
use crate::enhanced_xudt_meta::error::Error;
use crate::molecule::{
    byte32_at_range, byte_at_range, declared_fields, flexible_table, flexible_table_offsets,
    header_offsets, lemma_offsets_ordered, offsets_match, u128_at_range, u32_at,
};
use crate::script::{parsed_script_hash, script_hash_of};

verus! {

/// Number of fields of the xUDT metadata table.
pub const XUDT_META_FIELDS: usize = 11;

/// Number of fields of an authority table.
pub const SCRIPT_ATTR_FIELDS: usize = 3;

/// Number of fields of an AccessList shard table.
pub const ACCESS_LIST_SHARD_FIELDS: usize = 2;

/// The flags xUDT metadata may set.
pub const XUDT_ALLOWED_CONFIG_MASK: u8 = 0b0000_1111;

/// Most extensions metadata may list.
pub const MAX_EXTENSIONS: usize = 16;

/// Most entries a shard may hold.
pub const MAX_ACCESSLIST_ENTRIES: usize = 8192;

/// Lock code hashes a metadata cell may be locked with.
pub open spec fn meta_lock_whitelist() -> Seq<Seq<u8>> {
    seq![
        seq![
            0x3bu8, 0x52, 0x1c, 0xc4, 0xb5, 0x52, 0xf1, 0x09, 0xd0, 0x92, 0xd8, 0xcc, 0x46, 0x8a,
            0x80, 0x48, 0xac, 0xb5, 0x3c, 0x59, 0x52, 0xdb, 0xe7, 0x69, 0xd2, 0xb2, 0xf9, 0xcf,
            0x6e, 0x47, 0xf7, 0xf1,
        ],
        seq![
            0xe6u8, 0x83, 0xb0, 0x41, 0x39, 0x34, 0x47, 0x68, 0x34, 0x84, 0x99, 0xc2, 0x3e, 0xb1,
            0x32, 0x6d, 0x5a, 0x52, 0xd6, 0xdb, 0x00, 0x6c, 0x0d, 0x2f, 0xec, 0xe0, 0x0a, 0x83,
            0x1f, 0x36, 0x60, 0xd7,
        ],
    ]
}

/// Parsed xUDT metadata: flags, supply, the raw field bytes an update compares, and the parsed
/// authorities.
pub struct XudtMeta {
    pub config_flags: u8,
    pub current_supply: u128,
    pub metadata_fields: Vec<u8>,
    pub mint_authority_raw: Vec<u8>,
    pub metadata_authority_raw: Vec<u8>,
    pub access_authority_raw: Vec<u8>,
    pub extensions_raw: Vec<u8>,
    pub mint_authority: Option<ScriptAttr>,
    pub metadata_authority: Option<ScriptAttr>,
    pub access_authority: Option<ScriptAttr>,
}

/// An authority: where its script must appear, and the script's hash.
#[derive(Clone, Copy, Debug)]
pub struct ScriptAttr {
    pub location: u8,
    pub script_hash: [u8; 32],
}

/// The value of an authority.
pub struct ScriptAttrV {
    pub location: u8,
    pub script_hash: Seq<u8>,
}

impl View for ScriptAttr {
    type V = ScriptAttrV;

    open spec fn view(&self) -> ScriptAttrV {
        ScriptAttrV { location: self.location, script_hash: self.script_hash@ }
    }
}

/// The value of an optional authority.
pub open spec fn attr_opt_v(a: Option<ScriptAttr>) -> Option<ScriptAttrV> {
    match a {
        Some(a) => Some(a@),
        None => None,
    }
}

/// The value of xUDT metadata.
pub struct XudtMetaV {
    pub config_flags: u8,
    pub current_supply: nat,
    pub metadata_fields: Seq<u8>,
    pub mint_authority_raw: Seq<u8>,
    pub metadata_authority_raw: Seq<u8>,
    pub access_authority_raw: Seq<u8>,
    pub extensions_raw: Seq<u8>,
    pub mint_authority: Option<ScriptAttrV>,
    pub metadata_authority: Option<ScriptAttrV>,
    pub access_authority: Option<ScriptAttrV>,
}

impl View for XudtMeta {
    type V = XudtMetaV;

    open spec fn view(&self) -> XudtMetaV {
        XudtMetaV {
            config_flags: self.config_flags,
            current_supply: self.current_supply as nat,
            metadata_fields: self.metadata_fields@,
            mint_authority_raw: self.mint_authority_raw@,
            metadata_authority_raw: self.metadata_authority_raw@,
            access_authority_raw: self.access_authority_raw@,
            extensions_raw: self.extensions_raw@,
            mint_authority: attr_opt_v(self.mint_authority),
            metadata_authority: attr_opt_v(self.metadata_authority),
            access_authority: attr_opt_v(self.access_authority),
        }
    }
}

/// The metadata cells of the script group: consumed, produced, and the group's type hash.
pub struct MetaGroup {
    pub input: Option<XudtMeta>,
    pub output: Option<XudtMeta>,
    pub meta_type_hash: [u8; 32],
}

/// A parsed AccessList shard: its range and how many entries it holds.
#[derive(Clone, Copy)]
pub struct AccessListShard {
    pub start: [u8; 32],
    pub end: [u8; 32],
    pub entries: usize,
}

/// Configuration flags are valid: only the four known bits, and whitelist only with access.
pub open spec fn config_ok(flags: u8) -> bool {
    &&& flags & !XUDT_ALLOWED_CONFIG_MASK == 0
    &&& !(flag_set(flags, CONFIG_ACCESS_WHITELIST) && !flag_set(flags, CONFIG_ACCESS_ENABLED))
}

/// The authority a 3-field table encodes: a location byte, a 32-byte script hash, and a script
/// that locations `3` and `4` need (whose hash must be that hash) and locations `0..=2` must not
/// have.
pub open spec fn script_attr_of(d: Seq<u8>) -> Option<ScriptAttrV> {
    let o = header_offsets(d, 3);
    if !flexible_table(d, 3, false) || o[1] != o[0] + 1 || o[2] != o[1] + 32 {
        None
    } else {
        let location = d[o[0]];
        let hash = d.subrange(o[1], o[1] + 32);
        let script = d.subrange(o[2], o[3]);
        if location <= 2 && script.len() == 0 {
            Some(ScriptAttrV { location, script_hash: hash })
        } else if (location == 3 || location == 4) && script.len() != 0 {
            if script_hash_of(script) == Some(hash) {
                Some(ScriptAttrV { location, script_hash: hash })
            } else {
                None
            }
        } else {
            None
        }
    }
}

/// An optional authority: empty bytes for none.
pub open spec fn script_attr_opt_of(d: Seq<u8>) -> Option<Option<ScriptAttrV>> {
    if d.len() == 0 {
        Some(None)
    } else {
        match script_attr_of(d) {
            Some(a) => Some(Some(a)),
            None => None,
        }
    }
}

/// How reading a list of extensions ends: valid, invalid, or in an abort of the script (an
/// entry whose end passes the data).
#[derive(Clone, Copy, Debug, PartialEq, Eq, Structural)]
pub enum VecOutcome {
    Valid,
    Invalid,
    Aborts,
}

/// Key `a` sorts at or before key `b`: by location, then by script hash.
pub open spec fn key_le(a: (u8, Seq<u8>), b: (u8, Seq<u8>)) -> bool {
    a.0 < b.0 || (a.0 == b.0 && lex_le(a.1, b.1))
}

/// Reading entries `i..` of an extension list with offsets `o`, after the entry with key `prev`.
pub open spec fn ext_walk(d: Seq<u8>, o: Seq<int>, i: int, prev: Option<(u8, Seq<u8>)>) -> VecOutcome
    decreases o.len() - i,
{
    if i < 0 || i >= o.len() - 1 {
        VecOutcome::Valid
    } else if o[i] > o[i + 1] {
        VecOutcome::Invalid
    } else if o[i + 1] > d.len() {
        VecOutcome::Aborts
    } else {
        match script_attr_of(d.subrange(o[i], o[i + 1])) {
            None => VecOutcome::Invalid,
            Some(a) => {
                let key = (a.location, a.script_hash);
                if prev matches Some(p) && key_le(key, p) {
                    VecOutcome::Invalid
                } else {
                    ext_walk(d, o, i + 1, Some(key))
                }
            },
        }
    }
}

/// Reading an extension list: a size word, then (unless empty) at most 16 offsets and as many
/// authorities, sorted strictly by key.
pub open spec fn ext_vec_outcome(d: Seq<u8>) -> VecOutcome {
    if d.len() < 4 || le_at(d, 0, 4) != d.len() {
        VecOutcome::Invalid
    } else if d.len() == 4 {
        VecOutcome::Valid
    } else if d.len() < 8 {
        VecOutcome::Invalid
    } else {
        let first = le_at(d, 4, 4);
        if first < 8 || first % 4 != 0 || first > d.len() || first / 4 - 1 > 16 {
            VecOutcome::Invalid
        } else {
            ext_walk(d, header_offsets(d, (first / 4 - 1) as nat), 0, None)
        }
    }
}

/// The fields of an 11-field metadata table up to the extension list, when they are valid:
/// flags, supply, decimals, and the three authorities.
pub open spec fn meta_prefix_ok(d: Seq<u8>) -> bool {
    let o = header_offsets(d, 11);
    &&& flexible_table(d, 11, false)
    &&& o[1] == o[0] + 1
    &&& config_ok(d[o[0]])
    &&& o[2] == o[1] + 16
    &&& o[3] == o[2] + 1
    &&& script_attr_opt_of(d.subrange(o[7], o[8])) is Some
    &&& script_attr_opt_of(d.subrange(o[8], o[9])) is Some
    &&& script_attr_opt_of(d.subrange(o[9], o[10])) is Some
}

/// Parsing these bytes as metadata aborts the script.
pub open spec fn meta_aborts(d: Seq<u8>) -> bool {
    let o = header_offsets(d, 11);
    meta_prefix_ok(d) && ext_vec_outcome(d.subrange(o[10], o[11])) == VecOutcome::Aborts
}

/// The metadata an 11-field table encodes.
pub open spec fn xudt_meta_of(d: Seq<u8>) -> Result<XudtMetaV, Error> {
    let o = header_offsets(d, 11);
    if !meta_prefix_ok(d) || ext_vec_outcome(d.subrange(o[10], o[11])) != VecOutcome::Valid {
        Err(Error::InvalidMetaData)
    } else {
        let flags = d[o[0]];
        let supply = le_at(d, o[1], 16);
        if !flag_set(flags, CONFIG_SUPPLY_TRACKED) && supply != 0 {
            Err(Error::InvalidSupply)
        } else {
            Ok(XudtMetaV {
                config_flags: flags,
                current_supply: supply,
                metadata_fields: d.subrange(o[2], o[7]),
                mint_authority_raw: d.subrange(o[7], o[8]),
                metadata_authority_raw: d.subrange(o[8], o[9]),
                access_authority_raw: d.subrange(o[9], o[10]),
                extensions_raw: d.subrange(o[10], o[11]),
                mint_authority: script_attr_opt_of(d.subrange(o[7], o[8])).unwrap(),
                metadata_authority: script_attr_opt_of(d.subrange(o[8], o[9])).unwrap(),
                access_authority: script_attr_opt_of(d.subrange(o[9], o[10])).unwrap(),
            })
        }
    }
}

/// The value of a parse.
pub open spec fn parsed_v(r: Result<XudtMeta, Error>) -> Result<XudtMetaV, Error> {
    match r {
        Ok(m) => Ok(m@),
        Err(e) => Err(e),
    }
}

/// The shard an AccessList table (2 fields, more allowed) encodes: a 64-byte range, then a
/// vector of 32-byte entries; `(start, end, number of entries)`.
pub open spec fn shard_of(d: Seq<u8>) -> Option<(Seq<u8>, Seq<u8>, nat)> {
    let n = declared_fields(d);
    let o = header_offsets(d, n as nat);
    if !flexible_table(d, 2, true) || o[1] != o[0] + 64 {
        None
    } else {
        match byte32_vec_count_of(d.subrange(o[1], o[2])) {
            None => None,
            Some(count) => Some((d.subrange(o[0], o[0] + 32), d.subrange(o[0] + 32, o[1]), count)),
        }
    }
}

/// The number of entries a vector of 32-byte entries holds: at most 8192, and exactly the
/// bytes they take.
pub open spec fn byte32_vec_count_of(d: Seq<u8>) -> Option<nat> {
    if d.len() < 4 {
        None
    } else {
        let count = le_at(d, 0, 4);
        if count > 8192 || d.len() != 4 + count * 32 {
            None
        } else {
            Some(count)
        }
    }
}

/// The cell is an AccessList cell bound to this metadata.
pub open spec fn access_list_cell(c: CellView, hash: Seq<u8>, codes: CodeHashes) -> bool {
    bound_cell(c, hash, codes.access_list@)
}

/// Among the first `n` outputs, the first AccessList cell's shard parses (`Some(true)`), one
/// fails to parse first (`None`), or there is none (`Some(false)`).
pub open spec fn legal_shard_upto(outs: Seq<CellView>, hash: Seq<u8>, codes: CodeHashes, n: nat) -> Option<bool>
    decreases n,
{
    if n == 0 {
        Some(false)
    } else {
        match legal_shard_upto(outs, hash, codes, (n - 1) as nat) {
            Some(true) => Some(true),
            None => None,
            Some(false) => if access_list_cell(outs[n - 1], hash, codes) {
                if shard_of(outs[n - 1].data@) is Some {
                    Some(true)
                } else {
                    None
                }
            } else {
                Some(false)
            },
        }
    }
}

/// The shard is a single empty shard over the whole key domain.
pub open spec fn full_empty_shard(s: (Seq<u8>, Seq<u8>, nat)) -> bool {
    s.0 == zero32() && s.1 == max32() && s.2 == 0
}

/// Among the first `n` outputs, an AccessList cell holds a full-domain empty shard before any
/// fails to parse (`Some(true)`), one fails to parse first (`None`), or neither (`Some(false)`).
pub open spec fn full_shard_upto(outs: Seq<CellView>, hash: Seq<u8>, codes: CodeHashes, n: nat) -> Option<bool>
    decreases n,
{
    if n == 0 {
        Some(false)
    } else {
        match full_shard_upto(outs, hash, codes, (n - 1) as nat) {
            Some(true) => Some(true),
            None => None,
            Some(false) => if access_list_cell(outs[n - 1], hash, codes) {
                match shard_of(outs[n - 1].data@) {
                    None => None,
                    Some(s) => Some(full_empty_shard(s)),
                }
            } else {
                Some(false)
            },
        }
    }
}

/// The amount a token cell's data holds: exactly 16 bytes, little endian.
pub open spec fn amount_of(d: Seq<u8>) -> Result<nat, Error> {
    if d.len() != 16 {
        Err(Error::InvalidSupply)
    } else {
        Ok(le_value(d))
    }
}

/// The total amount of the bound token cells among the first `n` cells.
pub open spec fn initial_upto(cells: Seq<CellView>, hash: Seq<u8>, code: Seq<u8>, n: nat) -> Result<
    nat,
    Error,
>
    decreases n,
{
    if n == 0 {
        Ok(0)
    } else {
        match initial_upto(cells, hash, code, (n - 1) as nat) {
            Err(e) => Err(e),
            Ok(t) => if !bound_cell(cells[n - 1], hash, code) {
                Ok(t)
            } else {
                match amount_of(cells[n - 1].data@) {
                    Err(e) => Err(e),
                    Ok(v) => if t + v > u128::MAX {
                        Err(Error::InvalidSupply)
                    } else {
                        Ok(t + v)
                    },
                }
            },
        }
    }
}

/// The outcome of creating metadata: tracked supply equals the amount minted into bound token
/// outputs; untracked supply is zero.
pub open spec fn create_outcome(tx: TxView, m: XudtMetaV, hash: Seq<u8>, codes: CodeHashes) -> Result<(), Error> {
    if flag_set(m.config_flags, CONFIG_SUPPLY_TRACKED) {
        match initial_upto(tx.outputs@, hash, codes.udt@, tx.outputs@.len()) {
            Err(e) => Err(e),
            Ok(total) => if m.current_supply != total {
                Err(Error::InvalidSupply)
            } else {
                Ok(())
            },
        }
    } else if m.current_supply != 0 {
        Err(Error::InvalidSupply)
    } else {
        Ok(())
    }
}

/// The lock of a group cell is whitelisted.
pub open spec fn lock_allowed(c: CellView) -> bool {
    meta_lock_whitelist().contains(c.lock.code_hash@)
}

/// The metadata of a group source: none, the one cell's metadata (lock whitelisted), or an error.
pub open spec fn group_meta_of(cells: Seq<CellView>) -> Result<Option<XudtMetaV>, Error> {
    if cells.len() == 0 {
        Ok(None)
    } else if !lock_allowed(cells[0]) {
        Err(Error::InvalidArgs)
    } else {
        match xudt_meta_of(cells[0].data@) {
            Err(e) => Err(e),
            Ok(m) => if cells.len() > 1 {
                Err(Error::InvalidArgs)
            } else {
                Ok(Some(m))
            },
        }
    }
}

/// Reading the group source's metadata does not abort the script.
pub open spec fn group_readable(cells: Seq<CellView>) -> bool {
    cells.len() > 0 && lock_allowed(cells[0]) ==> !meta_aborts(cells[0].data@)
}

/// The value of a group lookup.
pub open spec fn group_v(r: Result<Option<XudtMeta>, Error>) -> Result<Option<XudtMetaV>, Error> {
    match r {
        Ok(Some(m)) => Ok(Some(m@)),
        Ok(None) => Ok(None),
        Err(e) => Err(e),
    }
}

/// Reads the metadata of the script group.
pub fn load_meta_group(tx: &TxView) -> (r: Result<MetaGroup, Error>)
    requires
        group_readable(tx.group_inputs@),
        group_readable(tx.group_outputs@),
    ensures
        match r {
            Ok(g) => {
                &&& group_meta_of(tx.group_inputs@) == group_v(Ok(g.input))
                &&& group_meta_of(tx.group_outputs@) == group_v(Ok(g.output))
                &&& g.meta_type_hash == tx.script_hash
            },
            Err(e) => group_meta_of(tx.group_inputs@) == Err::<Option<XudtMetaV>, Error>(e) || (
            group_meta_of(tx.group_inputs@) is Ok && group_meta_of(tx.group_outputs@) == Err::<
                Option<XudtMetaV>,
                Error,
            >(e)),
        },
{
    let input = load_group_meta(tx, Source::GroupInput)?;
    let output = load_group_meta(tx, Source::GroupOutput)?;
    Ok(MetaGroup { input, output, meta_type_hash: tx.script_hash })
}

/// The script's arguments must be 32 bytes.
pub fn validate_type_args(tx: &TxView) -> (r: Result<(), Error>)
    ensures
        r is Ok <==> tx.script_args@.len() == 32,
        r matches Err(e) ==> e == Error::InvalidArgs,
{
    if tx.script_args.len() != 32 {
        return Err(Error::InvalidArgs);
    }
    Ok(())
}

/// A creation needs the type-id rule to hold; any failure of it is an invalid type id.
pub fn validate_create_type_id(type_id_check: Result<(), crate::sys::SysErrorKind>) -> (r: Result<(), Error>)
    ensures
        r is Ok <==> type_id_check is Ok,
        r matches Err(e) ==> e == Error::InvalidTypeId,
{
    match type_id_check {
        Ok(()) => Ok(()),
        Err(_) => Err(Error::InvalidTypeId),
    }
}

/// Checks the supply of metadata being created.
pub fn validate_create(tx: &TxView, output_meta: &XudtMeta, meta_type_hash: &[u8; 32], codes: &CodeHashes) -> (r: Result<(), Error>)
    ensures
        r == create_outcome(*tx, output_meta@, meta_type_hash@, *codes),
{
    if is_supply_tracked(output_meta.config_flags) {
        let initial_supply = sum_initial_udt_outputs(tx, meta_type_hash, &codes.udt)?;
        if output_meta.current_supply != initial_supply {
            return Err(Error::InvalidSupply);
        }
    } else if output_meta.current_supply != 0 {
        return Err(Error::InvalidSupply);
    }
    Ok(())
}

/// A failure in the first `k` cells is the failure of every longer run.
pub proof fn lemma_initial_err_sticky(cells: Seq<CellView>, hash: Seq<u8>, code: Seq<u8>, k: nat, m: nat)
    requires
        k <= m,
        initial_upto(cells, hash, code, k) is Err,
    ensures
        initial_upto(cells, hash, code, m) == initial_upto(cells, hash, code, k),
    decreases m - k,
{
    if k < m {
        lemma_initial_err_sticky(cells, hash, code, k, (m - 1) as nat);
    }
}

/// The total amount of the token outputs bound to this metadata with the given code hash.
pub fn sum_initial_udt_outputs(tx: &TxView, meta_type_hash: &[u8; 32], udt_code_hash: &[u8; 32]) -> (r:
    Result<u128, Error>)
    ensures
        match r {
            Ok(v) => initial_upto(tx.outputs@, meta_type_hash@, udt_code_hash@, tx.outputs@.len())
                == Ok::<nat, Error>(v as nat),
            Err(e) => initial_upto(tx.outputs@, meta_type_hash@, udt_code_hash@, tx.outputs@.len())
                == Err::<nat, Error>(e),
        },
{
    let cells = &tx.outputs;
    let mut total: u128 = 0;
    let mut index: usize = 0;
    while index < cells.len()
        invariant
            index <= cells@.len(),
            cells@ == tx.outputs@,
            initial_upto(cells@, meta_type_hash@, udt_code_hash@, index as nat) == Ok::<nat, Error>(
                total as nat,
            ),
        decreases cells@.len() - index,
    {
        let bound = match &cells[index].type_script {
            Some(s) => is_token_script(s, meta_type_hash, udt_code_hash),
            None => false,
        };
        if bound {
            let amount = match decode_amount(cells[index].data.as_slice()) {
                Ok(a) => a,
                Err(e) => {
                    proof {
                        lemma_initial_err_sticky(cells@, meta_type_hash@, udt_code_hash@, (index + 1) as nat, cells@.len());
                    }
                    return Err(e);
                },
            };
            total = match total.checked_add(amount) {
                Some(t) => t,
                None => {
                    proof {
                        lemma_initial_err_sticky(cells@, meta_type_hash@, udt_code_hash@, (index + 1) as nat, cells@.len());
                    }
                    return Err(Error::InvalidSupply);
                },
            };
        }
        index = index + 1;
    }
    Ok(total)
}

/// Whether some input or output is a token cell bound to this metadata.
pub fn has_same_token_cells(tx: &TxView, meta_type_hash: &[u8; 32], codes: &CodeHashes) -> (r: bool)
    ensures
        r == ((exists|i: int| 0 <= i < tx.inputs@.len() && bound_cell(#[trigger] tx.inputs@[i], meta_type_hash@, codes.udt@))
            || (exists|i: int| 0 <= i < tx.outputs@.len() && bound_cell(#[trigger] tx.outputs@[i], meta_type_hash@, codes.udt@))),
{
    crate::chain::has_bound_cell(&tx.inputs, meta_type_hash, &codes.udt) || crate::chain::has_bound_cell(
        &tx.outputs,
        meta_type_hash,
        &codes.udt,
    )
}

/// Whether the outputs hold an AccessList cell for this metadata whose shard parses; a shard
/// that does not parse is invalid metadata.
pub fn has_legal_access_list_shard(tx: &TxView, meta_type_hash: &[u8; 32], codes: &CodeHashes) -> (r: Result<bool, Error>)
    ensures
        match r {
            Ok(b) => legal_shard_upto(tx.outputs@, meta_type_hash@, *codes, tx.outputs@.len()) == Some(b),
            Err(e) => legal_shard_upto(tx.outputs@, meta_type_hash@, *codes, tx.outputs@.len()) is None
                && e == Error::InvalidMetaData,
        },
{
    let cells = &tx.outputs;
    let mut index: usize = 0;
    while index < cells.len()
        invariant
            index <= cells@.len(),
            cells@ == tx.outputs@,
            legal_shard_upto(cells@, meta_type_hash@, *codes, index as nat) == Some(false),
        decreases cells@.len() - index,
    {
        let is_list = match &cells[index].type_script {
            Some(s) => is_access_list_script(s, meta_type_hash, codes),
            None => false,
        };
        if is_list {
            match parse_access_list_shard(cells[index].data.as_slice()) {
                Ok(_) => {
                    proof {
                        lemma_legal_sticky(cells@, meta_type_hash@, *codes, (index + 1) as nat, cells@.len());
                    }
                    return Ok(true);
                },
                Err(e) => {
                    proof {
                        lemma_legal_sticky(cells@, meta_type_hash@, *codes, (index + 1) as nat, cells@.len());
                    }
                    return Err(e);
                },
            }
        }
        index = index + 1;
    }
    Ok(false)
}

/// Once decided, the search for a legal shard stays decided.
pub proof fn lemma_legal_sticky(outs: Seq<CellView>, hash: Seq<u8>, codes: CodeHashes, k: nat, m: nat)
    requires
        k <= m,
        legal_shard_upto(outs, hash, codes, k) != Some(false),
    ensures
        legal_shard_upto(outs, hash, codes, m) == legal_shard_upto(outs, hash, codes, k),
    decreases m - k,
{
    if k < m {
        lemma_legal_sticky(outs, hash, codes, k, (m - 1) as nat);
    }
}

/// Once decided, the search for a full-domain shard stays decided.
pub proof fn lemma_full_sticky(outs: Seq<CellView>, hash: Seq<u8>, codes: CodeHashes, k: nat, m: nat)
    requires
        k <= m,
        full_shard_upto(outs, hash, codes, k) != Some(false),
    ensures
        full_shard_upto(outs, hash, codes, m) == full_shard_upto(outs, hash, codes, k),
    decreases m - k,
{
    if k < m {
        lemma_full_sticky(outs, hash, codes, k, (m - 1) as nat);
    }
}

/// Whether the outputs hold an AccessList cell for this metadata with a single empty shard over
/// the whole key domain; a shard met before it that does not parse is invalid metadata.
pub fn has_full_domain_access_list_shards(tx: &TxView, meta_type_hash: &[u8; 32], codes: &CodeHashes) -> (r: Result<bool, Error>)
    ensures
        match r {
            Ok(b) => full_shard_upto(tx.outputs@, meta_type_hash@, *codes, tx.outputs@.len()) == Some(b),
            Err(e) => full_shard_upto(tx.outputs@, meta_type_hash@, *codes, tx.outputs@.len()) is None
                && e == Error::InvalidMetaData,
        },
{
    let cells = &tx.outputs;
    let mut index: usize = 0;
    while index < cells.len()
        invariant
            index <= cells@.len(),
            cells@ == tx.outputs@,
            full_shard_upto(cells@, meta_type_hash@, *codes, index as nat) == Some(false),
        decreases cells@.len() - index,
    {
        let is_list = match &cells[index].type_script {
            Some(s) => is_access_list_script(s, meta_type_hash, codes),
            None => false,
        };
        if is_list {
            match parse_access_list_shard(cells[index].data.as_slice()) {
                Ok(shard) => {
                    if is_zero32(&shard.start) && is_max32(&shard.end) && shard.entries == 0 {
                        proof {
                            lemma_full_sticky(cells@, meta_type_hash@, *codes, (index + 1) as nat, cells@.len());
                        }
                        return Ok(true);
                    }
                },
                Err(e) => {
                    proof {
                        lemma_full_sticky(cells@, meta_type_hash@, *codes, (index + 1) as nat, cells@.len());
                    }
                    return Err(e);
                },
            }
        }
        index = index + 1;
    }
    Ok(false)
}

/// The token amount of a cell's data; the data must be exactly 16 bytes.
pub fn decode_amount(data: &[u8]) -> (r: Result<u128, Error>)
    ensures
        match r {
            Ok(v) => amount_of(data@) == Ok::<nat, Error>(v as nat),
            Err(e) => amount_of(data@) == Err::<nat, Error>(e),
        },
{
    if data.len() != 16 {
        return Err(Error::InvalidSupply);
    }
    let v = crate::bytes::le_u128_at(data, 0);
    assert(data@.subrange(0, 16) =~= data@);
    Ok(v)
}

/// The one metadata cell of a group source, with a whitelisted lock, parsed; a second one is an
/// error.
pub fn load_group_meta(tx: &TxView, source: Source) -> (r: Result<Option<XudtMeta>, Error>)
    requires
        source == Source::GroupInput || source == Source::GroupOutput,
        group_readable(tx.cells_of(source)),
    ensures
        group_v(r) == group_meta_of(tx.cells_of(source)),
{
    let cells = tx.cells(source);
    if cells.len() == 0 {
        return Ok(None);
    }
    validate_meta_lock(&cells[0])?;
    let meta = parse_meta(cells[0].data.as_slice())?;
    if cells.len() > 1 {
        return Err(Error::InvalidArgs);
    }
    Ok(Some(meta))
}

/// A group cell's lock must have a whitelisted code hash.
pub fn validate_meta_lock(cell: &CellView) -> (r: Result<(), Error>)
    ensures
        r is Ok <==> lock_allowed(*cell),
        r matches Err(e) ==> e == Error::InvalidArgs,
{
    let first: [u8; 32] = [
        0x3b, 0x52, 0x1c, 0xc4, 0xb5, 0x52, 0xf1, 0x09, 0xd0, 0x92, 0xd8, 0xcc, 0x46, 0x8a, 0x80,
        0x48, 0xac, 0xb5, 0x3c, 0x59, 0x52, 0xdb, 0xe7, 0x69, 0xd2, 0xb2, 0xf9, 0xcf, 0x6e, 0x47,
        0xf7, 0xf1,
    ];
    let second: [u8; 32] = [
        0xe6, 0x83, 0xb0, 0x41, 0x39, 0x34, 0x47, 0x68, 0x34, 0x84, 0x99, 0xc2, 0x3e, 0xb1, 0x32,
        0x6d, 0x5a, 0x52, 0xd6, 0xdb, 0x00, 0x6c, 0x0d, 0x2f, 0xec, 0xe0, 0x0a, 0x83, 0x1f, 0x36,
        0x60, 0xd7,
    ];
    assert(first@ =~= meta_lock_whitelist()[0]);
    assert(second@ =~= meta_lock_whitelist()[1]);
    let code_hash = cell.lock.code_hash;
    if byte32_eq(&code_hash, &first) || byte32_eq(&code_hash, &second) {
        assert(meta_lock_whitelist().contains(code_hash@)) by {
            if code_hash@ == first@ {
                assert(meta_lock_whitelist()[0] == code_hash@);
            } else {
                assert(meta_lock_whitelist()[1] == code_hash@);
            }
        }
        Ok(())
    } else {
        assert(!meta_lock_whitelist().contains(code_hash@)) by {
            if meta_lock_whitelist().contains(code_hash@) {
                let k = choose|k: int| 0 <= k < meta_lock_whitelist().len() && meta_lock_whitelist()[k] == code_hash@;
                assert(k == 0 || k == 1);
            }
        }
        Err(Error::InvalidArgs)
    }
}

/// Parses xUDT metadata.
pub fn parse_meta(data: &[u8]) -> (r: Result<XudtMeta, Error>)
    requires
        !meta_aborts(data@),
    ensures
        parsed_v(r) == xudt_meta_of(data@),
{
    let offsets = table_offsets(data, XUDT_META_FIELDS, false)?;
    proof {
        assert(declared_fields(data@) == 11);
        assert forall|k: int| 0 <= k <= 11 implies offsets@[k] as int == #[trigger] header_offsets(data@, 11)[k] by {
            assert(offsets@[k] as int == header_offsets(data@, declared_fields(data@) as nat)[k]);
        }
        lemma_offsets_ordered(data@, 11);
    }
    let config_flags = single_byte_field(data, offsets[0], offsets[1])?;
    validate_config(config_flags)?;

    let current_supply = u128_field(data, offsets[1], offsets[2])?;
    let _decimals = single_byte_field(data, offsets[2], offsets[3])?;
    let metadata_fields = crate::bytes::sub_vec(data, offsets[2], offsets[7]);
    let mint_authority_raw = crate::bytes::sub_vec(data, offsets[7], offsets[8]);
    let metadata_authority_raw = crate::bytes::sub_vec(data, offsets[8], offsets[9]);
    let access_authority_raw = crate::bytes::sub_vec(data, offsets[9], offsets[10]);
    let extensions_raw = crate::bytes::sub_vec(data, offsets[10], offsets[11]);
    let mint_authority = parse_script_attr_opt(mint_authority_raw.as_slice())?;
    let metadata_authority = parse_script_attr_opt(metadata_authority_raw.as_slice())?;
    let access_authority = parse_script_attr_opt(access_authority_raw.as_slice())?;
    parse_script_attr_vec(extensions_raw.as_slice())?;

    if !is_supply_tracked(config_flags) && current_supply != 0 {
        return Err(Error::InvalidSupply);
    }

    Ok(XudtMeta {
        config_flags,
        current_supply,
        metadata_fields,
        mint_authority_raw,
        metadata_authority_raw,
        access_authority_raw,
        extensions_raw,
        mint_authority,
        metadata_authority,
        access_authority,
    })
}

/// Configuration flags must use only the four known bits, and whitelist needs access enabled.
pub fn validate_config(config_flags: u8) -> (r: Result<(), Error>)
    ensures
        r is Ok <==> config_ok(config_flags),
        r matches Err(e) ==> e == Error::InvalidMetaData,
{
    if config_flags & !XUDT_ALLOWED_CONFIG_MASK != 0 {
        return Err(Error::InvalidMetaData);
    }
    if config_flags & CONFIG_ACCESS_WHITELIST != 0 && config_flags & CONFIG_ACCESS_ENABLED == 0 {
        return Err(Error::InvalidMetaData);
    }
    Ok(())
}

/// Whether a type script is a token script bound to this metadata with the given code hash.
pub fn is_token_script(type_script: &ScriptView, meta_type_hash: &[u8; 32], code_hash: &[u8; 32]) -> (r: bool)
    ensures
        r == bound_script(*type_script, meta_type_hash@, code_hash@),
{
    is_bound_script(type_script, meta_type_hash, code_hash)
}

/// Whether a type script is the AccessList script bound to this metadata.
pub fn is_access_list_script(type_script: &ScriptView, meta_type_hash: &[u8; 32], codes: &CodeHashes) -> (r: bool)
    ensures
        r == bound_script(*type_script, meta_type_hash@, codes.access_list@),
{
    is_token_script(type_script, meta_type_hash, &codes.access_list)
}

/// Whether the supply-tracking flag is set.
pub fn is_supply_tracked(config_flags: u8) -> (r: bool)
    ensures
        r == flag_set(config_flags, CONFIG_SUPPLY_TRACKED),
{
    config_flags & CONFIG_SUPPLY_TRACKED != 0
}

/// Whether the access-enabled flag is set.
pub fn access_enabled(config_flags: u8) -> (r: bool)
    ensures
        r == flag_set(config_flags, CONFIG_ACCESS_ENABLED),
{
    config_flags & CONFIG_ACCESS_ENABLED != 0
}

/// Whether the whitelist flag is set.
pub fn whitelist_mode(config_flags: u8) -> (r: bool)
    ensures
        r == flag_set(config_flags, CONFIG_ACCESS_WHITELIST),
{
    config_flags & CONFIG_ACCESS_WHITELIST != 0
}

/// Whether the paused flag is set.
pub fn paused(config_flags: u8) -> (r: bool)
    ensures
        r == flag_set(config_flags, CONFIG_PAUSED),
{
    config_flags & CONFIG_PAUSED != 0
}

/// Key `(la, ha)` sorts at or before key `(lb, hb)`.
fn key_at_or_before(la: u8, ha: &[u8; 32], lb: u8, hb: &[u8; 32]) -> (r: bool)
    ensures
        r == key_le((la, ha@), (lb, hb@)),
{
    la < lb || (la == lb && (byte32_lt(ha, hb) || byte32_eq(ha, hb)))
}

/// Reads a list of extensions: at most 16 authorities, sorted strictly by location and hash.
pub fn parse_script_attr_vec(data: &[u8]) -> (r: Result<(), Error>)
    requires
        ext_vec_outcome(data@) != VecOutcome::Aborts,
    ensures
        r is Ok <==> ext_vec_outcome(data@) == VecOutcome::Valid,
        r matches Err(e) ==> e == Error::InvalidMetaData,
{
    if data.len() < 4 {
        return Err(Error::InvalidMetaData);
    }
    let total_size = read_u32(data, 0)? as usize;
    if total_size != data.len() {
        return Err(Error::InvalidMetaData);
    }
    if total_size == 4 {
        return Ok(());
    }
    let first_offset = read_u32(data, 4)? as usize;
    if first_offset < 8 || first_offset % 4 != 0 || first_offset > total_size {
        return Err(Error::InvalidMetaData);
    }
    let count = first_offset / 4 - 1;
    if count > MAX_EXTENSIONS {
        return Err(Error::InvalidMetaData);
    }

    let ghost o = header_offsets(data@, count as nat);
    let mut offsets: Vec<usize> = Vec::new();
    let mut index: usize = 0;
    while index < count
        invariant
            count <= 16,
            first_offset == 4 + 4 * count,
            first_offset <= data@.len(),
            o == header_offsets(data@, count as nat),
            index <= count,
            offsets@.len() == index,
            forall|i: int| 0 <= i < index ==> offsets@[i] as int == #[trigger] o[i],
        decreases count - index,
    {
        let v = read_u32(data, 4 + index * 4)? as usize;
        offsets.push(v);
        index = index + 1;
    }
    offsets.push(total_size);
    assert(forall|i: int| 0 <= i <= count ==> offsets@[i] as int == #[trigger] o[i]);

    let mut prev_key: Option<(u8, [u8; 32])> = None;
    let mut i: usize = 0;
    while i < count
        invariant
            count <= 16,
            offsets@.len() == count + 1,
            o.len() == count + 1,
            forall|k: int| 0 <= k <= count ==> offsets@[k] as int == #[trigger] o[k],
            ext_vec_outcome(data@) == ext_walk(data@, o, i as int, match prev_key {
                Some(p) => Some((p.0, p.1@)),
                None => None,
            }),
            ext_vec_outcome(data@) != VecOutcome::Aborts,
            i <= count,
        decreases count - i,
    {
        let a = offsets[i];
        let b = offsets[i + 1];
        if a > b {
            return Err(Error::InvalidMetaData);
        }
        let attr = parse_script_attr(vstd::slice::slice_subrange(data, a, b))?;
        match prev_key {
            Some(p) => {
                if key_at_or_before(attr.location, &attr.script_hash, p.0, &p.1) {
                    return Err(Error::InvalidMetaData);
                }
            },
            None => {},
        }
        prev_key = Some((attr.location, attr.script_hash));
        i = i + 1;
    }
    Ok(())
}

/// An optional authority: empty bytes for none.
pub fn parse_script_attr_opt(data: &[u8]) -> (r: Result<Option<ScriptAttr>, Error>)
    ensures
        match r {
            Ok(a) => script_attr_opt_of(data@) == Some(attr_opt_v(a)),
            Err(e) => script_attr_opt_of(data@) is None && e == Error::InvalidMetaData,
        },
{
    if data.len() == 0 {
        return Ok(None);
    }
    match parse_script_attr(data) {
        Ok(a) => Ok(Some(a)),
        Err(e) => Err(e),
    }
}

/// An authority: location byte, script hash, and the script its location calls for, whose hash
/// must match.
pub fn parse_script_attr(data: &[u8]) -> (r: Result<ScriptAttr, Error>)
    ensures
        match r {
            Ok(a) => script_attr_of(data@) == Some(a@),
            Err(e) => script_attr_of(data@) is None && e == Error::InvalidMetaData,
        },
{
    let offsets = table_offsets(data, SCRIPT_ATTR_FIELDS, false)?;
    proof {
        assert(declared_fields(data@) == 3);
        assert forall|k: int| 0 <= k <= 3 implies offsets@[k] as int == #[trigger] header_offsets(data@, 3)[k] by {
            assert(offsets@[k] as int == header_offsets(data@, declared_fields(data@) as nat)[k]);
        }
        lemma_offsets_ordered(data@, 3);
    }
    let location = single_byte_field(data, offsets[0], offsets[1])?;
    let script_hash = byte32_field(data, offsets[1], offsets[2])?;
    let script_opt = vstd::slice::slice_subrange(data, offsets[2], offsets[3]);

    if location <= 2 && script_opt.len() == 0 {
        Ok(ScriptAttr { location, script_hash })
    } else if (location == 3 || location == 4) && script_opt.len() != 0 {
        match parsed_script_hash(script_opt) {
            Some(parsed_hash) => {
                if !byte32_eq(&parsed_hash, &script_hash) {
                    return Err(Error::InvalidMetaData);
                }
                Ok(ScriptAttr { location, script_hash })
            },
            None => Err(Error::InvalidMetaData),
        }
    } else {
        Err(Error::InvalidMetaData)
    }
}

/// Parses an AccessList shard: its range and the number of entries.
pub fn parse_access_list_shard(data: &[u8]) -> (r: Result<AccessListShard, Error>)
    ensures
        match r {
            Ok(s) => shard_of(data@) == Some((s.start@, s.end@, s.entries as nat)),
            Err(e) => shard_of(data@) is None && e == Error::InvalidMetaData,
        },
{
    let offsets = table_offsets(data, ACCESS_LIST_SHARD_FIELDS, true)?;
    let ghost n = declared_fields(data@) as nat;
    proof {
        assert(offsets@[0] as int == header_offsets(data@, n)[0]);
        assert(offsets@[1] as int == header_offsets(data@, n)[1]);
        assert(offsets@[2] as int == header_offsets(data@, n)[2]);
        lemma_offsets_ordered(data@, n);
    }
    if offsets[1] < offsets[0] || offsets[1] - offsets[0] != 64 {
        return Err(Error::InvalidMetaData);
    }
    let start = byte32_field(data, offsets[0], offsets[0] + 32)?;
    let end = byte32_field(data, offsets[0] + 32, offsets[1])?;
    let entries = parse_byte32_vec_count(vstd::slice::slice_subrange(data, offsets[1], offsets[2]))?;
    Ok(AccessListShard { start, end, entries })
}

/// The number of entries of a vector of 32-byte entries.
pub fn parse_byte32_vec_count(data: &[u8]) -> (r: Result<usize, Error>)
    ensures
        match r {
            Ok(c) => byte32_vec_count_of(data@) == Some(c as nat),
            Err(e) => byte32_vec_count_of(data@) is None && e == Error::InvalidMetaData,
        },
{
    if data.len() < 4 {
        return Err(Error::InvalidMetaData);
    }
    let count = read_u32(data, 0)? as usize;
    if count > MAX_ACCESSLIST_ENTRIES || data.len() != 4 + count * 32 {
        return Err(Error::InvalidMetaData);
    }
    Ok(count)
}

/// Reads the offsets of a table of at least `fields` fields (exactly, unless
/// `allow_extra_fields`).
pub fn table_offsets(data: &[u8], fields: usize, allow_extra_fields: bool) -> (r: Result<Vec<usize>, Error>)
    ensures
        r is Ok <==> flexible_table(data@, fields as nat, allow_extra_fields),
        r matches Ok(o) ==> offsets_match(o@, data@, declared_fields(data@) as nat),
        r matches Err(e) ==> e == Error::InvalidMetaData,
{
    match flexible_table_offsets(data, fields, allow_extra_fields) {
        Some(o) => Ok(o),
        None => Err(Error::InvalidMetaData),
    }
}

/// The single byte `data[start..end]`.
pub fn single_byte_field(data: &[u8], start: usize, end: usize) -> (r: Result<u8, Error>)
    ensures
        r is Ok <==> (end == start + 1 && end <= data@.len()),
        r matches Ok(b) ==> b == data@[start as int],
        r matches Err(e) ==> e == Error::InvalidMetaData,
{
    match byte_at_range(data, start, end) {
        Some(b) => Ok(b),
        None => Err(Error::InvalidMetaData),
    }
}

/// The little-endian `u128` in `data[start..end]`.
pub fn u128_field(data: &[u8], start: usize, end: usize) -> (r: Result<u128, Error>)
    ensures
        r is Ok <==> (end == start + 16 && end <= data@.len()),
        r matches Ok(v) ==> v as nat == le_at(data@, start as int, 16),
        r matches Err(e) ==> e == Error::InvalidMetaData,
{
    match u128_at_range(data, start, end) {
        Some(v) => Ok(v),
        None => Err(Error::InvalidMetaData),
    }
}

/// The 32 bytes `data[start..end]`.
pub fn byte32_field(data: &[u8], start: usize, end: usize) -> (r: Result<[u8; 32], Error>)
    ensures
        r is Ok <==> (end == start + 32 && end <= data@.len()),
        r matches Ok(v) ==> v@ == data@.subrange(start as int, start + 32),
        r matches Err(e) ==> e == Error::InvalidMetaData,
{
    match byte32_at_range(data, start, end) {
        Some(v) => Ok(v),
        None => Err(Error::InvalidMetaData),
    }
}

/// The little-endian `u32` at `start`.
pub fn read_u32(data: &[u8], start: usize) -> (r: Result<u32, Error>)
    ensures
        r is Ok <==> start + 4 <= data@.len(),
        r matches Ok(v) ==> v as nat == le_at(data@, start as int, 4),
        r matches Err(e) ==> e == Error::InvalidMetaData,
{
    match u32_at(data, start) {
        Some(v) => Ok(v),
        None => Err(Error::InvalidMetaData),
    }
}

} // verus!
