//! The metadata an AccessList transaction runs under: the access modes before and after it,
//! and the authorities that must approve it.
use vstd::prelude::*;
use crate::byte32::byte32_eq;
use crate::bytes::copy_byte32;
use crate::access_list::error::Error;
use crate::chain::{type_hash_is, CellView, Source, TxView};
use crate::types::{auth_opt_v, clone_authority_opt, Authority, AuthorityV, XudtMeta};

verus! {

/// The metadata fields the AccessList script uses: flags and the access and mint authorities.
pub struct ParsedXudtMeta {
    pub config_flags: u8,
    pub access_authority: Option<Authority>,
    pub mint_authority: Option<Authority>,
}

/// The value of the metadata fields the AccessList script uses.
pub struct ParsedXudtMetaV {
    pub config_flags: u8,
    pub access_authority: Option<AuthorityV>,
    pub mint_authority: Option<AuthorityV>,
}

impl View for ParsedXudtMeta {
    type V = ParsedXudtMetaV;

    open spec fn view(&self) -> ParsedXudtMetaV {
        ParsedXudtMetaV {
            config_flags: self.config_flags,
            access_authority: auth_opt_v(self.access_authority),
            mint_authority: auth_opt_v(self.mint_authority),
        }
    }
}

/// The fields the AccessList script uses of decoded metadata.
pub open spec fn projected(m: XudtMeta) -> ParsedXudtMetaV {
    ParsedXudtMetaV {
        config_flags: m.config_flags,
        access_authority: auth_opt_v(m.access_authority),
        mint_authority: auth_opt_v(m.mint_authority),
    }
}

/// The metadata an AccessList transaction runs under: the flags before it (consumed metadata,
/// or else the cell deps'), the flags after it (produced metadata, or else the cell deps'), and
/// the authorities of the governing metadata.
pub struct MetaContext {
    pub input_config_flags: Option<u8>,
    pub output_config_flags: Option<u8>,
    pub access_authority: Option<Authority>,
    pub mint_authority: Option<Authority>,
}

/// The value of a metadata context.
pub struct MetaContextV {
    pub input_config_flags: Option<u8>,
    pub output_config_flags: Option<u8>,
    pub access_authority: Option<AuthorityV>,
    pub mint_authority: Option<AuthorityV>,
}

impl View for MetaContext {
    type V = MetaContextV;

    open spec fn view(&self) -> MetaContextV {
        MetaContextV {
            input_config_flags: self.input_config_flags,
            output_config_flags: self.output_config_flags,
            access_authority: auth_opt_v(self.access_authority),
            mint_authority: auth_opt_v(self.mint_authority),
        }
    }
}

/// The metadata each cell of the inputs, outputs and cell deps decodes to, `None` where it does
/// not decode.
pub struct DecodedMetas {
    pub inputs: Vec<Option<XudtMeta>>,
    pub outputs: Vec<Option<XudtMeta>>,
    pub cell_deps: Vec<Option<XudtMeta>>,
}

/// One decoding per cell.
pub open spec fn decoded_fits(tx: TxView, d: DecodedMetas) -> bool {
    &&& d.inputs@.len() == tx.inputs@.len()
    &&& d.outputs@.len() == tx.outputs@.len()
    &&& d.cell_deps@.len() == tx.cell_deps@.len()
}

/// The metadata among the first `n` cells with this type hash: none, the one found, or an
/// error (the first does not decode, or a second one exists).
pub open spec fn meta_in_upto(cells: Seq<CellView>, decoded: Seq<Option<XudtMeta>>, hash: Seq<u8>, n: nat) -> Result<Option<ParsedXudtMetaV>, Error>
    decreases n,
{
    if n == 0 {
        Ok(None)
    } else {
        match meta_in_upto(cells, decoded, hash, (n - 1) as nat) {
            Err(e) => Err(e),
            Ok(found) => if !type_hash_is(cells[n - 1], hash) {
                Ok(found)
            } else if found is Some {
                Err(Error::MetaNotUnique)
            } else {
                match decoded[n - 1] {
                    None => Err(Error::InvalidMetaData),
                    Some(m) => Ok(Some(projected(m))),
                }
            },
        }
    }
}

/// The metadata of a source.
pub open spec fn meta_in(cells: Seq<CellView>, decoded: Seq<Option<XudtMeta>>, hash: Seq<u8>) -> Result<Option<ParsedXudtMetaV>, Error> {
    meta_in_upto(cells, decoded, hash, cells.len())
}

/// The first of two optional metadata that is present.
pub open spec fn or_meta(a: Option<ParsedXudtMetaV>, b: Option<ParsedXudtMetaV>) -> Option<ParsedXudtMetaV> {
    if a is Some {
        a
    } else {
        b
    }
}

/// The flags of optional metadata.
pub open spec fn flags_of(m: Option<ParsedXudtMetaV>) -> Option<u8> {
    match m {
        Some(m) => Some(m.config_flags),
        None => None,
    }
}

/// The metadata context of a transaction: the consumed, produced and cell dep metadata are
/// looked up in that order; the governing metadata is the consumed one, or else the cell deps',
/// or else the produced one, and one must exist.
pub open spec fn meta_context_of(tx: TxView, d: DecodedMetas, hash: Seq<u8>) -> Result<MetaContextV, Error> {
    match meta_in(tx.inputs@, d.inputs@, hash) {
        Err(e) => Err(e),
        Ok(input) => match meta_in(tx.outputs@, d.outputs@, hash) {
            Err(e) => Err(e),
            Ok(output) => match meta_in(tx.cell_deps@, d.cell_deps@, hash) {
                Err(e) => Err(e),
                Ok(cell_dep) => match or_meta(or_meta(input, cell_dep), output) {
                    None => Err(Error::MetaMissing),
                    Some(authority_meta) => Ok(MetaContextV {
                        input_config_flags: flags_of(or_meta(input, cell_dep)),
                        output_config_flags: flags_of(or_meta(output, cell_dep)),
                        access_authority: authority_meta.access_authority,
                        mint_authority: authority_meta.mint_authority,
                    }),
                },
            },
        },
    }
}

/// The metadata type hash the script's arguments hold: exactly 32 bytes.
pub fn load_meta_type_hash_arg(tx: &TxView) -> (r: Result<[u8; 32], Error>)
    ensures
        match r {
            Ok(h) => tx.script_args@.len() == 32 && h@ == tx.script_args@,
            Err(e) => tx.script_args@.len() != 32 && e == Error::InvalidArgs,
        },
{
    let args = tx.script_args.as_slice();
    if args.len() != 32 {
        return Err(Error::InvalidArgs);
    }
    let h = copy_byte32(args, 0);
    assert(args@.subrange(0, 32) =~= args@);
    Ok(h)
}

/// The fields the AccessList script uses of decoded metadata.
pub fn parse_meta(meta: &XudtMeta) -> (r: ParsedXudtMeta)
    ensures
        r@ == projected(*meta),
{
    ParsedXudtMeta {
        config_flags: meta.config_flags,
        access_authority: clone_authority_opt(&meta.access_authority),
        mint_authority: clone_authority_opt(&meta.mint_authority),
    }
}

proof fn lemma_meta_err_sticky(cells: Seq<CellView>, decoded: Seq<Option<XudtMeta>>, hash: Seq<u8>, k: nat, m: nat)
    requires
        k <= m,
        meta_in_upto(cells, decoded, hash, k) is Err,
    ensures
        meta_in_upto(cells, decoded, hash, m) == meta_in_upto(cells, decoded, hash, k),
    decreases m - k,
{
    if k < m {
        lemma_meta_err_sticky(cells, decoded, hash, k, (m - 1) as nat);
    }
}

/// The value of a metadata lookup.
pub open spec fn found_v(r: Result<Option<ParsedXudtMeta>, Error>) -> Result<Option<ParsedXudtMetaV>, Error> {
    match r {
        Ok(Some(m)) => Ok(Some(m@)),
        Ok(None) => Ok(None),
        Err(e) => Err(e),
    }
}

/// The metadata of a source with this type hash.
pub fn find_meta_in_source(
    tx: &TxView,
    meta_type_hash: &[u8; 32],
    source: Source,
    decoded: &Vec<Option<XudtMeta>>,
) -> (r: Result<Option<ParsedXudtMeta>, Error>)
    requires
        decoded@.len() == tx.cells_of(source).len(),
    ensures
        found_v(r) == meta_in(tx.cells_of(source), decoded@, meta_type_hash@),
{
    let cells = tx.cells(source);
    let mut found: Option<ParsedXudtMeta> = None;
    let mut index: usize = 0;
    while index < cells.len()
        invariant
            index <= cells@.len(),
            cells@ == tx.cells_of(source),
            decoded@.len() == cells@.len(),
            meta_in_upto(cells@, decoded@, meta_type_hash@, index as nat) == found_v(Ok(found)),
        decreases cells@.len() - index,
    {
        let hit = match &cells[index].type_hash {
            Some(h) => byte32_eq(h, meta_type_hash),
            None => false,
        };
        assert(hit == type_hash_is(cells@[index as int], meta_type_hash@));
        if hit {
            if found.is_some() {
                proof {
                    lemma_meta_err_sticky(cells@, decoded@, meta_type_hash@, (index + 1) as nat, cells@.len());
                }
                return Err(Error::MetaNotUnique);
            }
            match &decoded[index] {
                None => {
                    proof {
                        lemma_meta_err_sticky(cells@, decoded@, meta_type_hash@, (index + 1) as nat, cells@.len());
                    }
                    return Err(Error::InvalidMetaData);
                },
                Some(m) => {
                    found = Some(parse_meta(m));
                },
            }
        }
        index = index + 1;
    }
    Ok(found)
}

/// The metadata context of the transaction.
pub fn load_meta_context(tx: &TxView, meta_type_hash: &[u8; 32], decoded: &DecodedMetas) -> (r: Result<MetaContext, Error>)
    requires
        decoded_fits(*tx, *decoded),
    ensures
        match r {
            Ok(c) => meta_context_of(*tx, *decoded, meta_type_hash@) == Ok::<MetaContextV, Error>(c@),
            Err(e) => meta_context_of(*tx, *decoded, meta_type_hash@) == Err::<MetaContextV, Error>(e),
        },
{
    let input = find_meta_in_source(tx, meta_type_hash, Source::Input, &decoded.inputs)?;
    let output = find_meta_in_source(tx, meta_type_hash, Source::Output, &decoded.outputs)?;
    let cell_dep = find_meta_in_source(tx, meta_type_hash, Source::CellDep, &decoded.cell_deps)?;

    let before: Option<&ParsedXudtMeta> = if input.is_some() { input.as_ref() } else { cell_dep.as_ref() };
    let after: Option<&ParsedXudtMeta> = if output.is_some() { output.as_ref() } else { cell_dep.as_ref() };
    let authority_meta: &ParsedXudtMeta = match before {
        Some(m) => m,
        None => match output.as_ref() {
            Some(m) => m,
            None => return Err(Error::MetaMissing),
        },
    };
    Ok(MetaContext {
        input_config_flags: match before {
            Some(m) => Some(m.config_flags),
            None => None,
        },
        output_config_flags: match after {
            Some(m) => Some(m.config_flags),
            None => None,
        },
        access_authority: clone_authority_opt(&authority_meta.access_authority),
        mint_authority: clone_authority_opt(&authority_meta.mint_authority),
    })
}

} // verus!
