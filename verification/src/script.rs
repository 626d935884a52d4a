//! Scripts carried inside metadata: their Molecule layout, their parts, and the hash the
//! metadata names for them.
use vstd::prelude::*;
use ckb_std::ckb_types::packed::Script;
use ckb_std::ckb_types::prelude::{Entity, Unpack};
use crate::bytes::le_at;
use crate::molecule::{exact_table, header_offsets};

verus! {

/// The parts of a Molecule `Script`: a table of exactly three fields, a 32-byte code hash, a
/// one-byte hash type, and `Bytes` arguments (a little-endian count, then that many bytes).
/// `None` when `bytes` are not such a table.
pub open spec fn script_parts_of(bytes: Seq<u8>) -> Option<(Seq<u8>, u8, Seq<u8>)> {
    let o = header_offsets(bytes, 3);
    if !exact_table(bytes, 3) || o[1] != o[0] + 32 || o[2] != o[1] + 1 || o[3] < o[2] + 4
        || o[2] + 4 + le_at(bytes, o[2], 4) != o[3] {
        None
    } else {
        Some((bytes.subrange(o[0], o[1]), bytes[o[1]], bytes.subrange(o[2] + 4, o[3])))
    }
}

/// The hash CKB gives the script that `bytes` encode; `None` when `bytes` are not a well-formed
/// Molecule `Script`.
pub uninterp spec fn script_hash_of(bytes: Seq<u8>) -> Option<Seq<u8>>;

/// Calls `ckb_types::packed::Script::from_slice` on `bytes` and, when it accepts them,
/// `calc_script_hash` on the script (the Blake2b-256 hash CKB uses, of the same bytes).
/// Trusted: the hash is only named by `script_hash_of`; nothing here states the hash function.
/// That `from_slice` accepts exactly the bytes of `script_parts_of` is stated.
#[verifier::external_body]
pub(crate) fn parsed_script_hash(bytes: &[u8]) -> (r: Option<[u8; 32]>)
    ensures
        match r {
            Some(h) => script_hash_of(bytes@) == Some(h@),
            None => script_hash_of(bytes@) is None,
        },
        r is Some <==> script_parts_of(bytes@) is Some,
{
    match Script::from_slice(bytes) {
        Ok(script) => Some(script.calc_script_hash().unpack()),
        Err(_) => None,
    }
}

/// Calls `ckb_types::packed::Script::from_slice` on `bytes` and, when it accepts them, reads the
/// script's code hash, hash type byte and raw arguments. Trusted: `from_slice` verifies the
/// bytes strictly as a three-field `Script` table (no extra fields), and the accessors return
/// the fields as `script_parts_of` lays them out.
#[verifier::external_body]
pub(crate) fn parsed_script_parts(bytes: &[u8]) -> (r: Option<([u8; 32], u8, Vec<u8>)>)
    ensures
        match r {
            Some(p) => script_parts_of(bytes@) == Some((p.0@, p.1, p.2@)),
            None => script_parts_of(bytes@) is None,
        },
{
    match Script::from_slice(bytes) {
        Ok(script) => {
            let code_hash: [u8; 32] = script.code_hash().unpack();
            let hash_type: u8 = script.hash_type().into();
            Some((code_hash, hash_type, script.args().raw_data().to_vec()))
        },
        Err(_) => None,
    }
}

} // verus!
