//! Parsed metadata and AccessList shards, as plain values.
use vstd::prelude::*;
use crate::byte32::byte32_eq;
use crate::bytes::{bytes_eq, slice_to_vec};
use crate::sys::ScriptError;

verus! {

/// An authority: how it is checked, the script hash it names, and the script it may carry.
pub struct Authority {
    pub authority_type: u8,
    pub script_hash: [u8; 32],
    pub script: Option<Vec<u8>>,
}

/// The value of an authority, with its byte fields as sequences.
pub struct AuthorityV {
    pub authority_type: u8,
    pub script_hash: Seq<u8>,
    pub script: Option<Seq<u8>>,
}

impl View for Authority {
    type V = AuthorityV;

    open spec fn view(&self) -> AuthorityV {
        AuthorityV {
            authority_type: self.authority_type,
            script_hash: self.script_hash@,
            script: match self.script {
                Some(s) => Some(s@),
                None => None,
            },
        }
    }
}

/// The value of an optional authority.
pub open spec fn auth_opt_v(a: Option<Authority>) -> Option<AuthorityV> {
    match a {
        Some(a) => Some(a@),
        None => None,
    }
}

/// What checking an authority against the transaction reported: the authority that was
/// checked (`None` when there was none to check), and whether its script is present, or why it
/// could not be checked.
pub struct AuthorityCheck {
    pub authority: Option<Authority>,
    pub passed: Result<bool, ScriptError>,
}

/// What requiring an authority reported, with `fallback` required in its place when it is
/// absent or does not authorize (`None` when there is no fallback).
pub struct AuthorityRequirement {
    pub authority: Option<Authority>,
    pub fallback: Option<Authority>,
    pub result: Result<(), ScriptError>,
}

/// The check is of the authority `a`.
pub open spec fn checks_authority(c: AuthorityCheck, a: Option<AuthorityV>) -> bool {
    auth_opt_v(c.authority) == a
}

/// The requirement is of the authority `a`, with `fallback` in its place.
pub open spec fn requires_authority(r: AuthorityRequirement, a: Option<AuthorityV>, fallback: Option<AuthorityV>) -> bool {
    auth_opt_v(r.authority) == a && auth_opt_v(r.fallback) == fallback
}

/// Whether two optional authorities hold the same value.
pub fn authority_opt_eq(a: &Option<Authority>, b: &Option<Authority>) -> (r: bool)
    ensures
        r == (auth_opt_v(*a) == auth_opt_v(*b)),
{
    match (a, b) {
        (None, None) => true,
        (Some(x), Some(y)) => {
            if x.authority_type != y.authority_type {
                return false;
            }
            if !byte32_eq(&x.script_hash, &y.script_hash) {
                return false;
            }
            match (&x.script, &y.script) {
                (None, None) => true,
                (Some(s), Some(t)) => bytes_eq(s.as_slice(), t.as_slice()),
                _ => false,
            }
        },
        _ => false,
    }
}

/// A copy of an optional authority.
pub fn clone_authority_opt(a: &Option<Authority>) -> (r: Option<Authority>)
    ensures
        auth_opt_v(r) == auth_opt_v(*a),
{
    match a {
        None => None,
        Some(x) => {
            let script = match &x.script {
                None => None,
                Some(s) => Some(slice_to_vec(s.as_slice())),
            };
            Some(Authority { authority_type: x.authority_type, script_hash: x.script_hash, script })
        },
    }
}

/// An xUDT extension: how it runs, and the script it runs.
pub struct Extension {
    pub extension_type: u8,
    pub script: Vec<u8>,
}

/// The value of a list of extensions.
pub open spec fn extensions_v(e: Seq<Extension>) -> Seq<(u8, Seq<u8>)> {
    Seq::new(e.len(), |i: int| (e[i].extension_type, e[i].script@))
}

/// Whether two lists of extensions hold the same values.
pub fn extensions_eq(a: &Vec<Extension>, b: &Vec<Extension>) -> (r: bool)
    ensures
        r == (extensions_v(a@) == extensions_v(b@)),
{
    if a.len() != b.len() {
        assert(extensions_v(a@).len() != extensions_v(b@).len());
        return false;
    }
    let mut i: usize = 0;
    while i < a.len()
        invariant
            i <= a@.len(),
            a@.len() == b@.len(),
            forall|j: int| 0 <= j < i ==> extensions_v(a@)[j] == extensions_v(b@)[j],
        decreases a@.len() - i,
    {
        if a[i].extension_type != b[i].extension_type || !bytes_eq(
            a[i].script.as_slice(),
            b[i].script.as_slice(),
        ) {
            assert(extensions_v(a@)[i as int] != extensions_v(b@)[i as int]);
            return false;
        }
        i = i + 1;
    }
    assert(extensions_v(a@) =~= extensions_v(b@));
    true
}

/// Parsed sUDT metadata.
pub struct SudtMeta {
    pub config_flags: u8,
    pub current_supply: u128,
    pub decimals: u8,
    pub name: Vec<u8>,
    pub symbol: Vec<u8>,
    pub uri: Vec<u8>,
    pub extra_data: Vec<u8>,
    pub mint_authority: Option<Authority>,
    pub metadata_authority: Option<Authority>,
}

/// Parsed xUDT metadata.
pub struct XudtMeta {
    pub config_flags: u8,
    pub current_supply: u128,
    pub decimals: u8,
    pub name: Vec<u8>,
    pub symbol: Vec<u8>,
    pub uri: Vec<u8>,
    pub extra_data: Vec<u8>,
    pub mint_authority: Option<Authority>,
    pub metadata_authority: Option<Authority>,
    pub access_authority: Option<Authority>,
    pub extensions: Vec<Extension>,
}

/// The key range an AccessList shard covers, both ends included.
pub struct ShardRange {
    pub start: [u8; 32],
    pub end: [u8; 32],
}

/// A parsed AccessList shard: its range and its sorted entries.
pub struct AccessListShard {
    pub range: ShardRange,
    pub entries: Vec<[u8; 32]>,
}

} // verus!
