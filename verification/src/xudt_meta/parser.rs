//! xUDT metadata cell data: the table header, the raw field bytes an update compares, and the
//! fixed-size fields of a table.
use vstd::prelude::*;
use crate::bytes::{le_at, sub_vec};
use crate::molecule::{
    byte32_at_range, declared_fields, flexible_table, flexible_table_offsets, header_offsets,
    lemma_offsets_ordered, offsets_match, u32_at,
};
use crate::types::{auth_opt_v, clone_authority_opt, Authority, XudtMeta};
use crate::xudt_meta::config::{config_valid, validate_config};
use crate::xudt_meta::error::Error;

verus! {

/// Number of fields of the xUDT metadata table.
pub const XUDT_META_FIELDS: usize = 11;

/// xUDT metadata as an update compares it: flags, supply, the raw bytes of the metadata fields,
/// of each authority and of the extensions, and the decoded authorities.
pub struct ParsedXudtMeta {
    pub config_flags: u8,
    pub current_supply: u128,
    pub metadata_fields: Vec<u8>,
    pub mint_authority_raw: Vec<u8>,
    pub metadata_authority_raw: Vec<u8>,
    pub access_authority_raw: Vec<u8>,
    pub extensions_raw: Vec<u8>,
    pub mint_authority: Option<Authority>,
    pub metadata_authority: Option<Authority>,
    pub access_authority: Option<Authority>,
}

/// The metadata data is an 11-field table whose decoded configuration is valid.
pub open spec fn parse_ok(d: Seq<u8>, decoded: XudtMeta) -> bool {
    flexible_table(d, 11, false) && config_valid(decoded.config_flags)
}

/// The parsed metadata holds the decoded flags, supply and authorities, and the bytes of
/// fields `2..7` (metadata), `7`, `8`, `9` (authorities) and `10` (extensions).
pub open spec fn parsed_from(p: ParsedXudtMeta, d: Seq<u8>, decoded: XudtMeta) -> bool {
    let o = header_offsets(d, 11);
    &&& p.config_flags == decoded.config_flags
    &&& p.current_supply == decoded.current_supply
    &&& p.metadata_fields@ == d.subrange(o[2], o[7])
    &&& p.mint_authority_raw@ == d.subrange(o[7], o[8])
    &&& p.metadata_authority_raw@ == d.subrange(o[8], o[9])
    &&& p.access_authority_raw@ == d.subrange(o[9], o[10])
    &&& p.extensions_raw@ == d.subrange(o[10], o[11])
    &&& auth_opt_v(p.mint_authority) == auth_opt_v(decoded.mint_authority)
    &&& auth_opt_v(p.metadata_authority) == auth_opt_v(decoded.metadata_authority)
    &&& auth_opt_v(p.access_authority) == auth_opt_v(decoded.access_authority)
}

/// Parses metadata data, given the table decoded from it: the header must be an 11-field table
/// and the decoded configuration valid; the raw field bytes are taken from the data.
pub fn parse_meta(data: &[u8], decoded: &XudtMeta) -> (r: Result<ParsedXudtMeta, Error>)
    ensures
        r is Ok <==> parse_ok(data@, *decoded),
        r matches Ok(p) ==> parsed_from(p, data@, *decoded),
        r matches Err(e) ==> e == Error::InvalidMetaData,
{
    let offsets = table_offsets(data, XUDT_META_FIELDS, false)?;
    proof {
        assert(declared_fields(data@) == 11);
        assert forall|k: int| 0 <= k <= 11 implies offsets@[k] as int == #[trigger] header_offsets(data@, 11)[k] by {
            assert(offsets@[k] as int == header_offsets(data@, declared_fields(data@) as nat)[k]);
        }
        lemma_offsets_ordered(data@, 11);
        let o = header_offsets(data@, 11);
        assert(o[2] <= o[7] && o[7] <= o[8] && o[8] <= o[9] && o[9] <= o[10] && o[10] <= o[11]);
    }
    validate_config(decoded.config_flags)?;

    let metadata_fields = sub_vec(data, offsets[2], offsets[7]);
    let mint_authority_raw = sub_vec(data, offsets[7], offsets[8]);
    let metadata_authority_raw = sub_vec(data, offsets[8], offsets[9]);
    let access_authority_raw = sub_vec(data, offsets[9], offsets[10]);
    let extensions_raw = sub_vec(data, offsets[10], offsets[11]);

    Ok(ParsedXudtMeta {
        config_flags: decoded.config_flags,
        current_supply: decoded.current_supply,
        metadata_fields,
        mint_authority_raw,
        metadata_authority_raw,
        access_authority_raw,
        extensions_raw,
        mint_authority: clone_authority_opt(&decoded.mint_authority),
        metadata_authority: clone_authority_opt(&decoded.metadata_authority),
        access_authority: clone_authority_opt(&decoded.access_authority),
    })
}

/// Reads the offsets of a table of at least `fields` fields (exactly, unless
/// `allow_extra_fields`), the total size closing the list.
pub fn table_offsets(data: &[u8], fields: usize, allow_extra_fields: bool) -> (r: Result<Vec<usize>, Error>)
    ensures
        r is Ok <==> flexible_table(data@, fields as nat, allow_extra_fields),
        r matches Ok(o) ==> offsets_match(o@, data@, declared_fields(data@) as nat),
        r matches Err(e) ==> e == Error::InvalidMetaData,
{
    match flexible_table_offsets(data, fields, allow_extra_fields) {
        Some(o) => Ok(o),
        None => Err(Error::InvalidMetaData),
    }
}

/// The 32 bytes `data[start..end]`.
pub fn byte32_field(data: &[u8], start: usize, end: usize) -> (r: Result<[u8; 32], Error>)
    ensures
        r is Ok <==> (end == start + 32 && end <= data@.len()),
        r matches Ok(v) ==> v@ == data@.subrange(start as int, start + 32),
        r matches Err(e) ==> e == Error::InvalidMetaData,
{
    match byte32_at_range(data, start, end) {
        Some(v) => Ok(v),
        None => Err(Error::InvalidMetaData),
    }
}

/// The little-endian `u32` at `start`.
pub fn read_u32(data: &[u8], start: usize) -> (r: Result<u32, Error>)
    ensures
        r is Ok <==> start + 4 <= data@.len(),
        r matches Ok(v) ==> v as nat == le_at(data@, start as int, 4),
        r matches Err(e) ==> e == Error::InvalidMetaData,
{
    match u32_at(data, start) {
        Some(v) => Ok(v),
        None => Err(Error::InvalidMetaData),
    }
}

} // verus!
