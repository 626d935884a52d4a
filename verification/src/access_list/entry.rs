//! The AccessList script: the group's consumed and produced shards must fit the access modes
//! before and after the transaction, produced shards must be locked with the always-success
//! lock, and the access authority (or the mint authority) must approve.
use vstd::prelude::*;
use crate::access_list::error::Error;
use crate::access_list::meta::{decoded_fits, load_meta_context, load_meta_type_hash_arg, meta_context_of, DecodedMetas};
use crate::access_list::mode::{mode_of_flags, AccessMode};
use crate::access_list::shards::{shards_valid_for_modes, validate_shards_for_modes};
use crate::byte32::byte32_eq;
use crate::chain::{CellView, TxView, HASH_TYPE_DATA2};
use crate::sys::ScriptError;
use crate::types::{requires_authority, AccessListShard, AuthorityRequirement};

verus! {

/// The code hash of the always-success lock a produced shard must be locked with.
pub open spec fn always_success_lock_code_hash() -> Seq<u8> {
    seq![
        0x3bu8, 0x52, 0x1c, 0xc4, 0xb5, 0x52, 0xf1, 0x09, 0xd0, 0x92, 0xd8, 0xcc, 0x46, 0x8a, 0x80,
        0x48, 0xac, 0xb5, 0x3c, 0x59, 0x52, 0xdb, 0xe7, 0x69, 0xd2, 0xb2, 0xf9, 0xcf, 0x6e, 0x47,
        0xf7, 0xf1,
    ]
}

/// What the AccessList script learns from outside its own logic: the metadata each cell
/// decodes to, the shard each group cell decodes to (`None` where it does not), and what
/// requiring the metadata's access authority, with its mint authority as fallback, reported.
pub struct ListContext {
    pub metas: DecodedMetas,
    pub input_shards: Vec<Option<AccessListShard>>,
    pub output_shards: Vec<Option<AccessListShard>>,
    pub authority: AuthorityRequirement,
}

/// The context matches the transaction, and the requirement is of the governing metadata's
/// access authority with its mint authority as fallback.
pub open spec fn context_fits(tx: TxView, ctx: ListContext) -> bool {
    &&& decoded_fits(tx, ctx.metas)
    &&& ctx.input_shards@.len() == tx.group_inputs@.len()
    &&& ctx.output_shards@.len() == tx.group_outputs@.len()
    &&& meta_context_of(tx, ctx.metas, tx.script_args@) matches Ok(c)
        ==> requires_authority(ctx.authority, c.access_authority, c.mint_authority)
}

/// Every group cell's shard decodes.
pub open spec fn all_decoded(s: Seq<Option<AccessListShard>>) -> bool {
    forall|i: int| 0 <= i < s.len() ==> (#[trigger] s[i]) is Some
}

/// The decoded shards of a group source.
pub open spec fn decoded_shards(s: Seq<Option<AccessListShard>>) -> Seq<AccessListShard> {
    Seq::new(s.len(), |i: int| s[i]->Some_0)
}

/// The produced cell's lock is the always-success lock, by `Data2`.
pub open spec fn output_lock_allowed(c: CellView) -> bool {
    c.lock.hash_type == HASH_TYPE_DATA2 && c.lock.code_hash@ == always_success_lock_code_hash()
}

/// The error a failed authority requirement is reported as.
pub open spec fn script_error_of(e: ScriptError) -> Error {
    match e {
        ScriptError::AuthorityMissing => Error::AuthorityMissing,
        ScriptError::AuthorityFailed => Error::AuthorityFailed,
        ScriptError::UnsupportedAuthorityLocation => Error::UnsupportedAuthorityLocation,
        ScriptError::InvalidAuthority => Error::InvalidMetaData,
        _ => Error::SyscallUnknown,
    }
}

/// The access mode of optional flags: disabled without metadata.
pub open spec fn mode_of(flags: Option<u8>) -> Option<AccessMode> {
    match flags {
        None => Some(AccessMode::Disabled),
        Some(f) => mode_of_flags(f),
    }
}

/// The outcome of the script.
pub open spec fn main_outcome(tx: TxView, ctx: ListContext) -> Result<(), Error> {
    let hash = tx.script_args@;
    if hash.len() != 32 {
        Err(Error::InvalidArgs)
    } else {
        match meta_context_of(tx, ctx.metas, hash) {
            Err(e) => Err(e),
            Ok(c) => if !all_decoded(ctx.input_shards@) || !all_decoded(ctx.output_shards@) {
                Err(Error::InvalidShardData)
            } else if exists|i: int| 0 <= i < tx.group_outputs@.len() && !output_lock_allowed(#[trigger] tx.group_outputs@[i]) {
                Err(Error::InvalidArgs)
            } else {
                match (mode_of(c.input_config_flags), mode_of(c.output_config_flags)) {
                    (None, _) => Err(Error::InvalidMetaData),
                    (_, None) => Err(Error::InvalidMetaData),
                    (Some(input_mode), Some(output_mode)) => if !shards_valid_for_modes(
                        input_mode,
                        output_mode,
                        decoded_shards(ctx.input_shards@),
                        decoded_shards(ctx.output_shards@),
                    ) {
                        Err(Error::InvalidShardSet)
                    } else {
                        match ctx.authority.result {
                            Ok(()) => Ok(()),
                            Err(e) => Err(script_error_of(e)),
                        }
                    },
                }
            },
        }
    }
}

/// The shards of a group source, each as decoded, taken out of `decoded`; one that does not
/// decode is invalid shard data.
pub fn collect_group_shards(decoded: &mut Vec<Option<AccessListShard>>) -> (r: Result<Vec<AccessListShard>, Error>)
    ensures
        match r {
            Ok(v) => all_decoded(old(decoded)@) && v@ == decoded_shards(old(decoded)@),
            Err(e) => !all_decoded(old(decoded)@) && e == Error::InvalidShardData,
        },
{
    let ghost orig = decoded@;
    let mut shards: Vec<AccessListShard> = Vec::new();
    let mut index: usize = 0;
    while index < decoded.len()
        invariant
            index <= decoded@.len(),
            decoded@.len() == orig.len(),
            orig == old(decoded)@,
            forall|i: int| index <= i < orig.len() ==> decoded@[i] == orig[i],
            forall|i: int| 0 <= i < index ==> (#[trigger] orig[i]) is Some,
            shards@.len() == index,
            forall|i: int| 0 <= i < index ==> shards@[i] == orig[i]->Some_0,
        decreases orig.len() - index,
    {
        let mut slot: Option<AccessListShard> = None;
        let ghost before = decoded@;
        core::mem::swap(&mut slot, &mut decoded[index]);
        assert(slot == before[index as int]);
        assert(slot == orig[index as int]);
        match slot {
            Some(shard) => {
                shards.push(shard);
            },
            None => {
                assert(!all_decoded(orig));
                return Err(Error::InvalidShardData);
            },
        }
        index = index + 1;
    }
    assert(shards@ =~= decoded_shards(orig));
    Ok(shards)
}

/// Whether a lock code hash is the always-success lock's.
pub fn is_allowed_always_success_lock_code_hash(code_hash: &[u8; 32]) -> (r: bool)
    ensures
        r == (code_hash@ == always_success_lock_code_hash()),
{
    let allowed: [u8; 32] = [
        0x3b, 0x52, 0x1c, 0xc4, 0xb5, 0x52, 0xf1, 0x09, 0xd0, 0x92, 0xd8, 0xcc, 0x46, 0x8a, 0x80,
        0x48, 0xac, 0xb5, 0x3c, 0x59, 0x52, 0xdb, 0xe7, 0x69, 0xd2, 0xb2, 0xf9, 0xcf, 0x6e, 0x47,
        0xf7, 0xf1,
    ];
    assert(allowed@ =~= always_success_lock_code_hash());
    byte32_eq(code_hash, &allowed)
}

/// Every produced shard must be locked with the always-success lock, by `Data2`.
pub fn validate_group_output_locks(tx: &TxView) -> (r: Result<(), Error>)
    ensures
        r is Ok <==> forall|i: int| 0 <= i < tx.group_outputs@.len() ==> output_lock_allowed(#[trigger] tx.group_outputs@[i]),
        r matches Err(e) ==> e == Error::InvalidArgs,
{
    let cells = &tx.group_outputs;
    let mut index: usize = 0;
    while index < cells.len()
        invariant
            index <= cells@.len(),
            cells@ == tx.group_outputs@,
            forall|i: int| 0 <= i < index ==> output_lock_allowed(#[trigger] cells@[i]),
        decreases cells@.len() - index,
    {
        let lock = &cells[index].lock;
        if lock.hash_type != HASH_TYPE_DATA2 || !is_allowed_always_success_lock_code_hash(&lock.code_hash) {
            assert(!output_lock_allowed(cells@[index as int]));
            return Err(Error::InvalidArgs);
        }
        index = index + 1;
    }
    Ok(())
}

/// The error a failed authority requirement is reported as.
pub fn map_script_error(error: ScriptError) -> (r: Error)
    ensures
        r == script_error_of(error),
{
    match error {
        ScriptError::AuthorityMissing => Error::AuthorityMissing,
        ScriptError::AuthorityFailed => Error::AuthorityFailed,
        ScriptError::UnsupportedAuthorityLocation => Error::UnsupportedAuthorityLocation,
        ScriptError::InvalidAuthority => Error::InvalidMetaData,
        ScriptError::SyscallUnknown => Error::SyscallUnknown,
        _ => Error::SyscallUnknown,
    }
}

/// The access mode of optional flags: disabled without metadata.
fn mode_from(flags: Option<u8>) -> (r: Result<AccessMode, Error>)
    ensures
        match mode_of(flags) {
            Some(m) => r == Ok::<AccessMode, Error>(m),
            None => r == Err::<AccessMode, Error>(Error::InvalidMetaData),
        },
{
    match flags {
        Some(f) => AccessMode::from_flags(f),
        None => Ok(AccessMode::Disabled),
    }
}

/// Runs the AccessList script.
pub fn main(tx: &TxView, ctx: ListContext) -> (r: Result<(), Error>)
    requires
        context_fits(*tx, ctx),
    ensures
        r == main_outcome(*tx, ctx),
{
    let meta_type_hash = load_meta_type_hash_arg(tx)?;
    let meta_context = load_meta_context(tx, &meta_type_hash, &ctx.metas)?;
    let authority = ctx.authority.result;
    let mut pending_inputs = ctx.input_shards;
    let mut pending_outputs = ctx.output_shards;
    let input_shards = collect_group_shards(&mut pending_inputs)?;
    let output_shards = collect_group_shards(&mut pending_outputs)?;
    validate_group_output_locks(tx)?;

    let input_mode = mode_from(meta_context.input_config_flags)?;
    let output_mode = mode_from(meta_context.output_config_flags)?;
    validate_shards_for_modes(input_mode, output_mode, input_shards.as_slice(), output_shards.as_slice())?;

    match authority {
        Ok(()) => Ok(()),
        Err(e) => Err(map_script_error(e)),
    }
}

/// The script's exit code: `0` when the transaction is valid, the error's code otherwise.
pub fn program_entry(tx: &TxView, ctx: ListContext) -> (r: i8)
    requires
        context_fits(*tx, ctx),
    ensures
        match main_outcome(*tx, ctx) {
            Ok(()) => r == 0,
            Err(e) => r == e.code_of(),
        },
{
    match main(tx, ctx) {
        Ok(()) => 0,
        Err(error) => error.code(),
    }
}

} // verus!
