//! Holder access control: the AccessList shards the cell deps provide, indexed by range, and
//! the check of every checked holder lock against them, in batches of sorted distinct locks.
use vstd::prelude::*;
use crate::byte32::{
    byte32_eq, byte32_lt, key_before, key_lt, lemma_key_lt_asym, lemma_key_lt_irrefl, lemma_key_lt_trans,
    lemma_key_total, lemma_lex_le_not_lt, lemma_lex_lt_trans, lemma_lex_total, lex_le, lex_lt,
};
use crate::bytes::{copy_byte32, le_at};
use crate::chain::{type_hash_is, CellView, Source, TxView};
use crate::xudt::error::Error;
use crate::xudt::meta::{read_u32, ParsedXudtMeta};

verus! {

/// Most locks checked in one batch.
pub const LOCK_BATCH_SIZE: usize = 64;

/// Bytes of a shard table's header: size and two offsets.
pub const ACCESS_LIST_HEADER_SIZE: usize = 12;

/// Bytes of a shard's range: start and end keys.
pub const ACCESS_LIST_RANGE_SIZE: usize = 64;

/// Bytes of a shard's data read to index it: the header and the range.
pub const ACCESS_LIST_RANGE_PREFIX_SIZE: usize = 76;

/// Which holder locks a flow checks.
#[derive(Clone, Copy, Debug, PartialEq, Eq, Structural)]
pub enum CheckedLocks {
    /// The group's output locks (mint).
    Outputs,
    /// The group's input and output locks (transfer, protocol burn).
    InputsAndOutputs,
}

/// A shard of the index: its range, and the cell dep that holds it.
#[derive(Clone, Copy)]
pub struct ShardIndex {
    pub start: [u8; 32],
    pub end: [u8; 32],
    pub dep_index: usize,
}

/// The value of a shard index entry.
pub open spec fn shard_v(s: ShardIndex) -> (Seq<u8>, Seq<u8>, nat) {
    (s.start@, s.end@, s.dep_index as nat)
}

/// The value of a shard index.
pub open spec fn index_v(idx: Seq<ShardIndex>) -> Seq<(Seq<u8>, Seq<u8>, nat)> {
    idx.map_values(|s: ShardIndex| shard_v(s))
}

/// The range a shard's data holds, read from its first 76 bytes: the size word is the data's
/// length, the range field takes exactly 64 bytes right after the 12-byte header, and the
/// start is not after the end.
pub open spec fn range_prefix_of(d: Seq<u8>) -> Option<(Seq<u8>, Seq<u8>)> {
    let ro = le_at(d, 4, 4) as int;
    let eo = le_at(d, 8, 4) as int;
    if d.len() < 76 || le_at(d, 0, 4) != d.len() || ro < 12 || eo < ro || eo - ro != 64 || eo > d.len() || eo > 76 {
        None
    } else {
        let start = d.subrange(ro, ro + 32);
        let end = d.subrange(ro + 32, eo);
        if lex_lt(end, start) {
            None
        } else {
            Some((start, end))
        }
    }
}

/// The shard index of the first `n` cell deps: the ranges of the AccessList deps bound to this
/// metadata (type hash `list_hash`), in dep order, each starting after the previous one ends.
pub open spec fn shard_index_upto(deps: Seq<CellView>, list_hash: Seq<u8>, n: nat) -> Result<Seq<(Seq<u8>, Seq<u8>, nat)>, Error>
    decreases n,
{
    if n == 0 {
        Ok(Seq::empty())
    } else {
        match shard_index_upto(deps, list_hash, (n - 1) as nat) {
            Err(e) => Err(e),
            Ok(prev) => if !type_hash_is(deps[n - 1], list_hash) {
                Ok(prev)
            } else {
                match range_prefix_of(deps[n - 1].data@) {
                    None => Err(Error::InvalidShardData),
                    Some(r) => if prev.len() > 0 && !lex_lt(prev.last().1, r.0) {
                        Err(Error::InvalidShardData)
                    } else {
                        Ok(prev.push((r.0, r.1, (n - 1) as nat)))
                    },
                }
            },
        }
    }
}

/// The shard index of all the cell deps.
pub open spec fn shard_index_of(tx: TxView, list_hash: Seq<u8>) -> Result<Seq<(Seq<u8>, Seq<u8>, nat)>, Error> {
    shard_index_upto(tx.cell_deps@, list_hash, tx.cell_deps@.len())
}

/// Entries in strictly increasing key order.
pub open spec fn entries_sorted(entries: Seq<[u8; 32]>) -> bool {
    forall|i: int, j: int| 0 <= i < j < entries.len() ==> key_lt(#[trigger] entries[i]@, #[trigger] entries[j]@)
}

/// The decoded shards all hold strictly increasing entries.
pub open spec fn shards_sorted(shards: Seq<Option<Vec<[u8; 32]>>>) -> bool {
    forall|k: int| 0 <= k < shards.len() ==> (#[trigger] shards[k] matches Some(e) ==> entries_sorted(e@))
}

/// The entries hold the key.
pub open spec fn entries_contain(entries: Seq<[u8; 32]>, key: Seq<u8>) -> bool {
    exists|i: int| 0 <= i < entries.len() && (#[trigger] entries[i])@ == key
}

/// Shard `k` is the first of the index that does not end before the lock.
pub open spec fn first_not_before(idx: Seq<(Seq<u8>, Seq<u8>, nat)>, lock: Seq<u8>, k: int) -> bool {
    &&& 0 <= k < idx.len()
    &&& !key_lt(idx[k].1, lock)
    &&& forall|j: int| 0 <= j < k ==> key_lt(#[trigger] idx[j].1, lock)
}

/// The error a lock no shard covers is reported as: denied in a whitelist, missing proof data
/// in a blacklist.
pub open spec fn uncovered_error(whitelist: bool) -> Error {
    if whitelist {
        Error::AccessDenied
    } else {
        Error::InvalidShardData
    }
}

/// The outcome of checking one lock: the shard that may cover it is the first one not ending
/// before it; a lock it does not cover is uncovered; a covered lock must be in the shard's
/// entries in a whitelist and absent from them in a blacklist.
pub open spec fn lock_outcome(
    idx: Seq<(Seq<u8>, Seq<u8>, nat)>,
    shards: Seq<Option<Vec<[u8; 32]>>>,
    whitelist: bool,
    lock: Seq<u8>,
) -> Result<(), Error> {
    if forall|j: int| 0 <= j < idx.len() ==> key_lt(#[trigger] idx[j].1, lock) {
        Err(uncovered_error(whitelist))
    } else {
        let k = choose|k: int| first_not_before(idx, lock, k);
        if key_lt(lock, idx[k].0) {
            Err(uncovered_error(whitelist))
        } else {
            match shards[idx[k].2 as int] {
                None => Err(Error::InvalidShardData),
                Some(entries) => if entries_contain(entries@, lock) == whitelist {
                    Ok(())
                } else {
                    Err(Error::AccessDenied)
                },
            }
        }
    }
}

/// Lock `i` of the batch fails, and no failing lock of the batch comes before it.
pub open spec fn least_failing(
    batch: Seq<Seq<u8>>,
    idx: Seq<(Seq<u8>, Seq<u8>, nat)>,
    shards: Seq<Option<Vec<[u8; 32]>>>,
    whitelist: bool,
    i: int,
) -> bool {
    &&& 0 <= i < batch.len()
    &&& lock_outcome(idx, shards, whitelist, batch[i]) is Err
    &&& forall|j: int| 0 <= j < batch.len() && (#[trigger] lock_outcome(idx, shards, whitelist, batch[j])) is Err
        ==> !key_lt(batch[j], batch[i])
}

/// The outcome of a batch: every lock passes, or the least failing lock, in key order, decides
/// the error.
pub open spec fn batch_outcome(
    batch: Seq<Seq<u8>>,
    idx: Seq<(Seq<u8>, Seq<u8>, nat)>,
    shards: Seq<Option<Vec<[u8; 32]>>>,
    whitelist: bool,
) -> Result<(), Error> {
    if forall|i: int| 0 <= i < batch.len() ==> (#[trigger] lock_outcome(idx, shards, whitelist, batch[i])) is Ok {
        Ok(())
    } else {
        let i = choose|i: int| least_failing(batch, idx, shards, whitelist, i);
        lock_outcome(idx, shards, whitelist, batch[i])
    }
}

/// The outcome of checking `locks` from position `start` on, in batches of 64 (the last one
/// shorter): the first batch that fails decides the error.
pub open spec fn batches_outcome(
    locks: Seq<Seq<u8>>,
    idx: Seq<(Seq<u8>, Seq<u8>, nat)>,
    shards: Seq<Option<Vec<[u8; 32]>>>,
    whitelist: bool,
    start: nat,
) -> Result<(), Error>
    decreases locks.len() - start,
{
    if start >= locks.len() {
        Ok(())
    } else {
        let end = if start + 64 <= locks.len() { start + 64 } else { locks.len() };
        match batch_outcome(locks.subrange(start as int, end as int), idx, shards, whitelist) {
            Err(e) => Err(e),
            Ok(()) => batches_outcome(locks, idx, shards, whitelist, end),
        }
    }
}

/// The lock hashes of a source's cells.
pub open spec fn lock_hashes(cells: Seq<CellView>) -> Seq<Seq<u8>> {
    cells.map_values(|c: CellView| c.lock_hash@)
}

/// The holder locks a flow checks, in order: the group's inputs, then its outputs.
pub open spec fn checked_lock_hashes(tx: TxView, checked: CheckedLocks) -> Seq<Seq<u8>> {
    match checked {
        CheckedLocks::Outputs => lock_hashes(tx.group_outputs@),
        CheckedLocks::InputsAndOutputs => lock_hashes(tx.group_inputs@) + lock_hashes(tx.group_outputs@),
    }
}

/// The outcome of the access check of a flow, with access control on: the shard index must
/// build, and every checked lock must pass.
pub open spec fn access_outcome(
    tx: TxView,
    list_hash: Seq<u8>,
    shards: Seq<Option<Vec<[u8; 32]>>>,
    whitelist: bool,
    checked: CheckedLocks,
) -> Result<(), Error> {
    match shard_index_of(tx, list_hash) {
        Err(e) => Err(e),
        Ok(idx) => batches_outcome(checked_lock_hashes(tx, checked), idx, shards, whitelist, 0),
    }
}

/// Checks the holder locks of a flow when the metadata turns access control on.
/// `access_list_type_hash` is the type hash of the AccessList script bound to this metadata;
/// `dep_shards[k]` the entries decoded from cell dep `k`, `None` where they do not decode.
pub fn validate_if_enabled(
    tx: &TxView,
    meta_data: &ParsedXudtMeta,
    checked_locks: CheckedLocks,
    access_list_type_hash: &[u8; 32],
    dep_shards: &Vec<Option<Vec<[u8; 32]>>>,
) -> (r: Result<(), Error>)
    requires
        dep_shards@.len() == tx.cell_deps@.len(),
        shards_sorted(dep_shards@),
    ensures
        r == (if crate::config::flag_set(meta_data.config_flags, crate::config::CONFIG_ACCESS_ENABLED) {
            access_outcome(
                *tx,
                access_list_type_hash@,
                dep_shards@,
                crate::config::flag_set(meta_data.config_flags, crate::config::CONFIG_ACCESS_WHITELIST),
                checked_locks,
            )
        } else {
            Ok(())
        }),
{
    if !meta_data.is_access_enabled() {
        return Ok(());
    }
    validate_checked_locks(tx, meta_data.is_whitelist(), checked_locks, access_list_type_hash, dep_shards)
}

/// Builds the shard index and checks every checked lock against it.
pub fn validate_checked_locks(
    tx: &TxView,
    whitelist: bool,
    checked_locks: CheckedLocks,
    access_list_type_hash: &[u8; 32],
    dep_shards: &Vec<Option<Vec<[u8; 32]>>>,
) -> (r: Result<(), Error>)
    requires
        dep_shards@.len() == tx.cell_deps@.len(),
        shards_sorted(dep_shards@),
    ensures
        r == access_outcome(*tx, access_list_type_hash@, dep_shards@, whitelist, checked_locks),
{
    let verifier = AccessVerifier::new(tx, whitelist, checked_locks, access_list_type_hash)?;
    verifier.validate(tx, dep_shards)
}

/// The access check of one flow: the list kind, which locks it checks, and the shard index.
pub struct AccessVerifier {
    pub whitelist: bool,
    pub checked_locks: CheckedLocks,
    pub shard_index: Vec<ShardIndex>,
}

/// The shard index holds only cell deps that exist.
pub open spec fn index_in_deps(idx: Seq<(Seq<u8>, Seq<u8>, nat)>, n: nat) -> bool {
    forall|k: int| 0 <= k < idx.len() ==> (#[trigger] idx[k]).2 < n
}

impl AccessVerifier {
    /// A verifier for the flow, with the index of the cell deps' shards.
    pub fn new(tx: &TxView, whitelist: bool, checked_locks: CheckedLocks, access_list_type_hash: &[u8; 32]) -> (r: Result<AccessVerifier, Error>)
        ensures
            match r {
                Ok(v) => shard_index_of(*tx, access_list_type_hash@) == Ok::<Seq<(Seq<u8>, Seq<u8>, nat)>, Error>(index_v(v.shard_index@))
                    && index_in_deps(index_v(v.shard_index@), tx.cell_deps@.len())
                    && v.whitelist == whitelist && v.checked_locks == checked_locks,
                Err(e) => shard_index_of(*tx, access_list_type_hash@) == Err::<Seq<(Seq<u8>, Seq<u8>, nat)>, Error>(e),
            },
    {
        let shard_index = build_shard_index(tx, access_list_type_hash)?;
        Ok(AccessVerifier { whitelist, checked_locks, shard_index })
    }

    /// Checks all the locks of the checked sources, batch by batch.
    pub fn validate(&self, tx: &TxView, dep_shards: &Vec<Option<Vec<[u8; 32]>>>) -> (r: Result<(), Error>)
        requires
            dep_shards@.len() == tx.cell_deps@.len(),
            shards_sorted(dep_shards@),
            index_in_deps(index_v(self.shard_index@), tx.cell_deps@.len()),
        ensures
            r == batches_outcome(checked_lock_hashes(*tx, self.checked_locks), index_v(self.shard_index@), dep_shards@, self.whitelist, 0),
    {
        let sources = self.checked_sources();
        let mut locks: Vec<[u8; 32]> = Vec::new();
        let mut s: usize = 0;
        assert(keys_v(locks@) =~= sources_locks(*tx, sources@, 0));
        while s < sources.len()
            invariant
                s <= sources@.len(),
                keys_v(locks@) == sources_locks(*tx, sources@, s as int),
            decreases sources@.len() - s,
        {
            push_lock_hashes(tx.cells(sources[s]), &mut locks);
            s = s + 1;
        }
        proof {
            lemma_sources_locks(*tx, self.checked_locks);
        }
        self.validate_batches(locks.as_slice(), dep_shards)
    }

    /// Checks the locks in batches of 64, in order.
    fn validate_batches(&self, locks: &[[u8; 32]], dep_shards: &Vec<Option<Vec<[u8; 32]>>>) -> (r: Result<(), Error>)
        requires
            shards_sorted(dep_shards@),
            index_in_deps(index_v(self.shard_index@), dep_shards@.len()),
        ensures
            r == batches_outcome(keys_v(locks@), index_v(self.shard_index@), dep_shards@, self.whitelist, 0),
    {
        let ghost all = keys_v(locks@);
        let mut start: usize = 0;
        while start < locks.len()
            invariant
                all == keys_v(locks@),
                start <= locks@.len(),
                shards_sorted(dep_shards@),
                index_in_deps(index_v(self.shard_index@), dep_shards@.len()),
                batches_outcome(all, index_v(self.shard_index@), dep_shards@, self.whitelist, 0)
                    == batches_outcome(all, index_v(self.shard_index@), dep_shards@, self.whitelist, start as nat),
            decreases locks@.len() - start,
        {
            let end = if locks.len() - start >= LOCK_BATCH_SIZE { start + LOCK_BATCH_SIZE } else { locks.len() };
            let batch = vstd::slice::slice_subrange(locks, start, end);
            proof {
                assert(keys_v(batch@) =~= all.subrange(start as int, end as int));
            }
            match self.validate_lock_batch(batch, dep_shards) {
                Ok(()) => {},
                Err(e) => return Err(e),
            }
            start = end;
        }
        Ok(())
    }

    /// The sources whose locks the flow checks.
    pub fn checked_sources(&self) -> (r: Vec<Source>)
        ensures
            r@ == checked_sources_of(self.checked_locks),
    {
        match self.checked_locks {
            CheckedLocks::Outputs => vec![Source::GroupOutput],
            CheckedLocks::InputsAndOutputs => vec![Source::GroupInput, Source::GroupOutput],
        }
    }

    /// Checks one batch of locks: sorted and deduplicated, each lock is matched to the first
    /// shard not ending before it, walking the index once.
    pub fn validate_lock_batch(&self, locks: &[[u8; 32]], dep_shards: &Vec<Option<Vec<[u8; 32]>>>) -> (r: Result<(), Error>)
        requires
            shards_sorted(dep_shards@),
            index_in_deps(index_v(self.shard_index@), dep_shards@.len()),
        ensures
            r == batch_outcome(keys_v(locks@), index_v(self.shard_index@), dep_shards@, self.whitelist),
    {
        let ghost batch = keys_v(locks@);
        let ghost idx = index_v(self.shard_index@);
        if locks.len() == 0 {
            return Ok(());
        }
        let sorted = sort_dedup_locks(locks);
        let mut lock_index: usize = 0;
        let mut shard_cursor: usize = 0;
        while lock_index < sorted.len()
            invariant
                batch == keys_v(locks@),
                idx == index_v(self.shard_index@),
                shards_sorted(dep_shards@),
                index_in_deps(idx, dep_shards@.len()),
                sorted_strictly(sorted@),
                same_keys(sorted@, batch),
                lock_index <= sorted@.len(),
                shard_cursor <= self.shard_index@.len(),
                all_pass_upto(sorted@, idx, dep_shards@, self.whitelist, lock_index as int),
                lock_index < sorted@.len() ==> ends_before(idx, sorted@[lock_index as int]@, shard_cursor as int),
            decreases sorted@.len() - lock_index,
        {
            let lock_hash = sorted[lock_index];
            shard_cursor = advance_cursor(&self.shard_index, shard_cursor, &lock_hash);
            if shard_cursor >= self.shard_index.len() || key_before(&lock_hash, &self.shard_index[shard_cursor].start) {
                proof {
                    if shard_cursor < self.shard_index@.len() {
                        assert(idx[shard_cursor as int] == shard_v(self.shard_index@[shard_cursor as int]));
                        lemma_first_not_before_unique(idx, lock_hash@, shard_cursor as int);
                    }
                    assert(lock_outcome(idx, dep_shards@, self.whitelist, lock_hash@) == Err::<(), Error>(uncovered_error(self.whitelist)));
                    lemma_least_failing(batch, sorted@, idx, dep_shards@, self.whitelist, lock_index as int);
                }
                return if self.whitelist {
                    Err(Error::AccessDenied)
                } else {
                    Err(Error::InvalidShardData)
                };
            }
            proof {
                assert(idx[shard_cursor as int] == shard_v(self.shard_index@[shard_cursor as int]));
            }
            lock_index = match self.check_covered_locks(&sorted, lock_index, shard_cursor, dep_shards, Ghost(batch)) {
                Ok(n) => n,
                Err(e) => return Err(e),
            };
        }
        proof {
            lemma_all_pass(batch, sorted@, idx, dep_shards@, self.whitelist);
        }
        Ok(())
    }

    /// Checks the run of sorted locks from `lock_index` on that shard `shard_cursor` covers,
    /// and returns where the run ends.
    fn check_covered_locks(
        &self,
        sorted: &Vec<[u8; 32]>,
        lock_index: usize,
        shard_cursor: usize,
        dep_shards: &Vec<Option<Vec<[u8; 32]>>>,
        Ghost(batch): Ghost<Seq<Seq<u8>>>,
    ) -> (r: Result<usize, Error>)
        requires
            shards_sorted(dep_shards@),
            index_in_deps(index_v(self.shard_index@), dep_shards@.len()),
            sorted_strictly(sorted@),
            same_keys(sorted@, batch),
            lock_index < sorted@.len(),
            shard_cursor < self.shard_index@.len(),
            first_not_before(index_v(self.shard_index@), sorted@[lock_index as int]@, shard_cursor as int),
            !key_lt(sorted@[lock_index as int]@, self.shard_index@[shard_cursor as int].start@),
            all_pass_upto(sorted@, index_v(self.shard_index@), dep_shards@, self.whitelist, lock_index as int),
        ensures
            match r {
                Ok(n) => {
                    &&& lock_index < n <= sorted@.len()
                    &&& all_pass_upto(sorted@, index_v(self.shard_index@), dep_shards@, self.whitelist, n as int)
                    &&& n < sorted@.len() ==> ends_before(index_v(self.shard_index@), sorted@[n as int]@, shard_cursor as int + 1)
                },
                Err(e) => batch_outcome(batch, index_v(self.shard_index@), dep_shards@, self.whitelist) == Err::<(), Error>(e),
            },
    {
        let ghost idx = index_v(self.shard_index@);
        let ghost g: int = lock_index as int;
        let current = self.shard_index[shard_cursor];
        assert(idx[shard_cursor as int] == shard_v(current));
        proof {
            lemma_index_keys(self.shard_index@);
        }
        let mut n = lock_index;
        while n < sorted.len() && shard_covers_index(&current, &sorted[n])
            invariant
                idx == index_v(self.shard_index@),
                shards_sorted(dep_shards@),
                index_in_deps(idx, dep_shards@.len()),
                sorted_strictly(sorted@),
                same_keys(sorted@, batch),
                shard_cursor < self.shard_index@.len(),
                idx[shard_cursor as int] == shard_v(current),
                0 <= g <= n <= sorted@.len(),
                g < sorted@.len(),
                first_not_before(idx, sorted@[g]@, shard_cursor as int),
                !key_lt(sorted@[g]@, current.start@),
                n > g ==> !key_lt(sorted@[n - 1]@, current.start@),
                forall|j: int| 0 <= j < idx.len() ==> (#[trigger] idx[j]).1.len() == 32,
                all_pass_upto(sorted@, idx, dep_shards@, self.whitelist, n as int),
            decreases sorted@.len() - n,
        {
            let lock_hash = sorted[n];
            proof {
                lemma_first_not_before_later(idx, sorted@, g, n as int, shard_cursor as int, current);
                lemma_first_not_before_unique(idx, lock_hash@, shard_cursor as int);
            }
            let member = match self.shard_contains(current.dep_index, &lock_hash, dep_shards) {
                Ok(m) => m,
                Err(e) => {
                    proof {
                        lemma_least_failing(batch, sorted@, idx, dep_shards@, self.whitelist, n as int);
                    }
                    return Err(e);
                },
            };
            if self.whitelist != member {
                proof {
                    lemma_least_failing(batch, sorted@, idx, dep_shards@, self.whitelist, n as int);
                }
                return Err(Error::AccessDenied);
            }
            proof {
                lemma_pass_extend(sorted@, idx, dep_shards@, self.whitelist, n as int);
            }
            n = n + 1;
        }
        proof {
            if n < sorted@.len() {
                lemma_after_run(idx, sorted@, g, n as int, shard_cursor as int, current);
            }
        }
        Ok(n)
    }

    /// Whether the shard held by cell dep `dep_index` lists the lock; a shard that does not
    /// decode is invalid shard data.
    pub fn shard_contains(&self, dep_index: usize, lock_hash: &[u8; 32], dep_shards: &Vec<Option<Vec<[u8; 32]>>>) -> (r: Result<bool, Error>)
        requires
            dep_index < dep_shards@.len(),
            shards_sorted(dep_shards@),
        ensures
            match dep_shards@[dep_index as int] {
                None => r == Err::<bool, Error>(Error::InvalidShardData),
                Some(entries) => r == Ok::<bool, Error>(entries_contain(entries@, lock_hash@)),
            },
    {
        match &dep_shards[dep_index] {
            None => Err(Error::InvalidShardData),
            Some(entries) => {
                assert(dep_shards@[dep_index as int] matches Some(e) ==> entries_sorted(e@));
                Ok(binary_contains(entries, lock_hash))
            },
        }
    }
}

/// The keys of the shard index are 32 bytes long.
proof fn lemma_index_keys(index: Seq<ShardIndex>)
    ensures
        forall|j: int| 0 <= j < index_v(index).len() ==> (#[trigger] index_v(index)[j]).1.len() == 32,
{
    assert forall|j: int| 0 <= j < index_v(index).len() implies (#[trigger] index_v(index)[j]).1.len() == 32 by {
        assert(index_v(index)[j] == shard_v(index[j]));
    }
}

/// Every shard before `k` ends before the lock.
pub open spec fn ends_before(idx: Seq<(Seq<u8>, Seq<u8>, nat)>, lock: Seq<u8>, k: int) -> bool {
    forall|j: int| 0 <= j < k ==> key_lt(#[trigger] idx[j].1, lock)
}

/// The first `n` sorted locks pass.
pub open spec fn all_pass_upto(
    sorted: Seq<[u8; 32]>,
    idx: Seq<(Seq<u8>, Seq<u8>, nat)>,
    shards: Seq<Option<Vec<[u8; 32]>>>,
    whitelist: bool,
    n: int,
) -> bool {
    forall|i: int| 0 <= i < n ==> #[trigger] lock_outcome(idx, shards, whitelist, sorted[i]@) is Ok
}

proof fn lemma_pass_extend(
    sorted: Seq<[u8; 32]>,
    idx: Seq<(Seq<u8>, Seq<u8>, nat)>,
    shards: Seq<Option<Vec<[u8; 32]>>>,
    whitelist: bool,
    n: int,
)
    requires
        all_pass_upto(sorted, idx, shards, whitelist, n),
        lock_outcome(idx, shards, whitelist, sorted[n]@) is Ok,
    ensures
        all_pass_upto(sorted, idx, shards, whitelist, n + 1),
{
    assert forall|i: int| 0 <= i < n + 1 implies #[trigger] lock_outcome(idx, shards, whitelist, sorted[i]@) is Ok by {
        if i < n {
            assert(lock_outcome(idx, shards, whitelist, sorted[i]@) is Ok);
        }
    }
}

/// A later lock of a run that the shard covers has the same first shard not ending before it.
proof fn lemma_first_not_before_later(
    idx: Seq<(Seq<u8>, Seq<u8>, nat)>,
    sorted: Seq<[u8; 32]>,
    g: int,
    n: int,
    k: int,
    current: ShardIndex,
)
    requires
        sorted_strictly(sorted),
        0 <= g <= n < sorted.len(),
        0 <= k < idx.len(),
        idx[k] == shard_v(current),
        first_not_before(idx, sorted[g]@, k),
        !key_lt(current.end@, sorted[n]@),
        forall|j: int| 0 <= j < idx.len() ==> (#[trigger] idx[j]).1.len() == 32,
    ensures
        first_not_before(idx, sorted[n]@, k),
{
    if n > g {
        assert(key_lt(sorted[g]@, sorted[n]@));
        assert forall|j: int| 0 <= j < k implies key_lt(#[trigger] idx[j].1, sorted[n]@) by {
            assert(key_lt(idx[j].1, sorted[g]@));
            lemma_key_lt_trans(idx[j].1, sorted[g]@, sorted[n]@);
        }
    }
}

/// The lock after a covered run lies past the shard's end, so every shard up to it ends before
/// the lock.
proof fn lemma_after_run(
    idx: Seq<(Seq<u8>, Seq<u8>, nat)>,
    sorted: Seq<[u8; 32]>,
    g: int,
    n: int,
    k: int,
    current: ShardIndex,
)
    requires
        sorted_strictly(sorted),
        0 <= g < n < sorted.len(),
        0 <= k < idx.len(),
        idx[k] == shard_v(current),
        first_not_before(idx, sorted[g]@, k),
        !key_lt(sorted[n - 1]@, current.start@),
        !(!key_lt(sorted[n]@, current.start@) && !key_lt(current.end@, sorted[n]@)),
        forall|j: int| 0 <= j < idx.len() ==> (#[trigger] idx[j]).1.len() == 32,
    ensures
        ends_before(idx, sorted[n]@, k + 1),
{
    assert(key_lt(sorted[n - 1]@, sorted[n]@));
    if key_lt(sorted[n]@, current.start@) {
        lemma_key_total(sorted[n - 1]@, current.start@);
        if sorted[n - 1]@ == current.start@ {
            lemma_key_lt_asym(sorted[n - 1]@, sorted[n]@);
        } else {
            lemma_key_lt_trans(current.start@, sorted[n - 1]@, sorted[n]@);
            lemma_key_lt_asym(current.start@, sorted[n]@);
        }
    }
    assert(key_lt(current.end@, sorted[n]@));
    assert forall|j: int| 0 <= j < k + 1 implies key_lt(#[trigger] idx[j].1, sorted[n]@) by {
        if j < k {
            assert(key_lt(idx[j].1, sorted[g]@));
            if g < n {
                assert(key_lt(sorted[g]@, sorted[n]@));
            }
            lemma_key_lt_trans(idx[j].1, sorted[g]@, sorted[n]@);
        }
    }
}

/// Moves the cursor past every shard that ends before the lock.
fn advance_cursor(index: &Vec<ShardIndex>, cursor: usize, lock_hash: &[u8; 32]) -> (r: usize)
    requires
        cursor <= index@.len(),
        ends_before(index_v(index@), lock_hash@, cursor as int),
    ensures
        cursor <= r <= index@.len(),
        ends_before(index_v(index@), lock_hash@, r as int),
        r < index@.len() ==> first_not_before(index_v(index@), lock_hash@, r as int),
{
    let ghost idx = index_v(index@);
    let mut c = cursor;
    while c < index.len() && key_before(&index[c].end, lock_hash)
        invariant
            idx == index_v(index@),
            cursor <= c <= index@.len(),
            ends_before(idx, lock_hash@, c as int),
        decreases index@.len() - c,
    {
        assert(idx[c as int] == shard_v(index@[c as int]));
        c = c + 1;
    }
    if c < index.len() {
        assert(idx[c as int] == shard_v(index@[c as int]));
    }
    c
}
/// Appends the lock hashes of the cells.
fn push_lock_hashes(cells: &Vec<CellView>, out: &mut Vec<[u8; 32]>)
    ensures
        keys_v(final(out)@) == keys_v(old(out)@) + lock_hashes(cells@),
{
    let ghost start = keys_v(out@);
    let mut i: usize = 0;
    while i < cells.len()
        invariant
            i <= cells@.len(),
            keys_v(out@) == start + lock_hashes(cells@).subrange(0, i as int),
        decreases cells@.len() - i,
    {
        let ghost before = out@;
        out.push(cells[i].lock_hash);
        proof {
            assert(out@ == before.push(cells@[i as int].lock_hash));
            assert(keys_v(out@) =~= keys_v(before).push(cells@[i as int].lock_hash@));
            assert(lock_hashes(cells@).subrange(0, i + 1) =~= lock_hashes(cells@).subrange(0, i as int).push(lock_hashes(cells@)[i as int]));
            assert(keys_v(out@) =~= start + lock_hashes(cells@).subrange(0, i + 1));
        }
        i = i + 1;
    }
    proof {
        assert(lock_hashes(cells@).subrange(0, cells@.len() as int) =~= lock_hashes(cells@));
    }
}

/// The sources a flow checks.
pub open spec fn checked_sources_of(checked: CheckedLocks) -> Seq<Source> {
    match checked {
        CheckedLocks::Outputs => seq![Source::GroupOutput],
        CheckedLocks::InputsAndOutputs => seq![Source::GroupInput, Source::GroupOutput],
    }
}

/// The lock hashes of the cells of the first `s` sources, in order.
pub open spec fn sources_locks(tx: TxView, sources: Seq<Source>, s: int) -> Seq<Seq<u8>>
    decreases s,
{
    if s <= 0 {
        Seq::empty()
    } else {
        sources_locks(tx, sources, s - 1) + lock_hashes(tx.cells_of(sources[s - 1]))
    }
}

proof fn lemma_sources_locks(tx: TxView, checked: CheckedLocks)
    ensures
        sources_locks(tx, checked_sources_of(checked), checked_sources_of(checked).len() as int)
            == checked_lock_hashes(tx, checked),
{
    let sources = checked_sources_of(checked);
    assert(sources_locks(tx, sources, 0) =~= Seq::<Seq<u8>>::empty());
    match checked {
        CheckedLocks::Outputs => {
            assert(sources_locks(tx, sources, 1) =~= lock_hashes(tx.group_outputs@));
        },
        CheckedLocks::InputsAndOutputs => {
            assert(sources_locks(tx, sources, 1) =~= lock_hashes(tx.group_inputs@));
            assert(sources_locks(tx, sources, 2) =~= lock_hashes(tx.group_inputs@) + lock_hashes(tx.group_outputs@));
        },
    }
}

/// The keys of a list of 32-byte keys, as byte sequences.
pub open spec fn keys_v(keys: Seq<[u8; 32]>) -> Seq<Seq<u8>> {
    keys.map_values(|l: [u8; 32]| l@)
}

/// Lock `i`, among the first `n`, fails and no failing lock among the first `n` precedes it.
pub open spec fn least_failing_upto(
    batch: Seq<Seq<u8>>,
    idx: Seq<(Seq<u8>, Seq<u8>, nat)>,
    shards: Seq<Option<Vec<[u8; 32]>>>,
    whitelist: bool,
    n: int,
    i: int,
) -> bool {
    &&& 0 <= i < n
    &&& lock_outcome(idx, shards, whitelist, batch[i]) is Err
    &&& forall|j: int| 0 <= j < n && (#[trigger] lock_outcome(idx, shards, whitelist, batch[j])) is Err
        ==> !key_lt(batch[j], batch[i])
}

/// When some lock among the first `n` fails, a least failing one exists.
proof fn lemma_least_failing_exists(
    batch: Seq<Seq<u8>>,
    idx: Seq<(Seq<u8>, Seq<u8>, nat)>,
    shards: Seq<Option<Vec<[u8; 32]>>>,
    whitelist: bool,
    n: int,
)
    requires
        0 <= n <= batch.len(),
        forall|j: int| 0 <= j < batch.len() ==> (#[trigger] batch[j]).len() == 32,
        exists|j: int| 0 <= j < n && (#[trigger] lock_outcome(idx, shards, whitelist, batch[j])) is Err,
    ensures
        exists|i: int| least_failing_upto(batch, idx, shards, whitelist, n, i),
    decreases n,
{
    let last = n - 1;
    if exists|j: int| 0 <= j < last && (#[trigger] lock_outcome(idx, shards, whitelist, batch[j])) is Err {
        lemma_least_failing_exists(batch, idx, shards, whitelist, last);
        let i = choose|i: int| least_failing_upto(batch, idx, shards, whitelist, last, i);
        if lock_outcome(idx, shards, whitelist, batch[last]) is Err && key_lt(batch[last], batch[i]) {
            assert forall|j: int| 0 <= j < n && (#[trigger] lock_outcome(idx, shards, whitelist, batch[j])) is Err
                implies !key_lt(batch[j], batch[last]) by {
                if j < last {
                    if key_lt(batch[j], batch[last]) {
                        lemma_key_lt_trans(batch[j], batch[last], batch[i]);
                    }
                } else {
                    lemma_key_lt_irrefl(batch[last]);
                }
            }
            assert(least_failing_upto(batch, idx, shards, whitelist, n, last));
        } else {
            assert(least_failing_upto(batch, idx, shards, whitelist, n, i));
        }
    } else {
        assert forall|j: int| 0 <= j < n && (#[trigger] lock_outcome(idx, shards, whitelist, batch[j])) is Err
            implies !key_lt(batch[j], batch[last]) by {
            lemma_key_lt_irrefl(batch[last]);
        }
        assert(least_failing_upto(batch, idx, shards, whitelist, n, last));
    }
}

/// A batch passes exactly when each of its locks passes.
pub proof fn lemma_batch_accepts_iff_all_pass(
    batch: Seq<Seq<u8>>,
    idx: Seq<(Seq<u8>, Seq<u8>, nat)>,
    shards: Seq<Option<Vec<[u8; 32]>>>,
    whitelist: bool,
)
    requires
        forall|j: int| 0 <= j < batch.len() ==> (#[trigger] batch[j]).len() == 32,
    ensures
        batch_outcome(batch, idx, shards, whitelist) is Ok
            <==> forall|i: int| 0 <= i < batch.len() ==> (#[trigger] lock_outcome(idx, shards, whitelist, batch[i])) is Ok,
{
    if !(forall|i: int| 0 <= i < batch.len() ==> (#[trigger] lock_outcome(idx, shards, whitelist, batch[i])) is Ok) {
        let j = choose|j: int| !(0 <= j < batch.len() ==> (#[trigger] lock_outcome(idx, shards, whitelist, batch[j])) is Ok);
        assert(lock_outcome(idx, shards, whitelist, batch[j]) is Err);
        lemma_least_failing_exists(batch, idx, shards, whitelist, batch.len() as int);
        let i = choose|i: int| least_failing_upto(batch, idx, shards, whitelist, batch.len() as int, i);
        assert(least_failing(batch, idx, shards, whitelist, i));
    }
}

/// Checking locks in batches accepts exactly when every lock from `start` on passes: how the
/// locks are split into batches does not change whether access is granted.
pub proof fn lemma_batches_accept_iff_all_pass(
    locks: Seq<Seq<u8>>,
    idx: Seq<(Seq<u8>, Seq<u8>, nat)>,
    shards: Seq<Option<Vec<[u8; 32]>>>,
    whitelist: bool,
    start: nat,
)
    requires
        forall|j: int| 0 <= j < locks.len() ==> (#[trigger] locks[j]).len() == 32,
    ensures
        batches_outcome(locks, idx, shards, whitelist, start) is Ok
            <==> forall|i: int| start <= i < locks.len() ==> (#[trigger] lock_outcome(idx, shards, whitelist, locks[i])) is Ok,
    decreases locks.len() - start,
{
    if start < locks.len() {
        let end = if start + 64 <= locks.len() { start + 64 } else { locks.len() };
        let chunk = locks.subrange(start as int, end as int);
        lemma_batch_accepts_iff_all_pass(chunk, idx, shards, whitelist);
        lemma_batches_accept_iff_all_pass(locks, idx, shards, whitelist, end);
        if batch_outcome(chunk, idx, shards, whitelist) is Ok {
            assert forall|i: int| start <= i < end implies (#[trigger] lock_outcome(idx, shards, whitelist, locks[i])) is Ok by {
                assert(chunk[i - start] == locks[i]);
            }
        } else {
            let k = choose|k: int| !(0 <= k < chunk.len() ==> (#[trigger] lock_outcome(idx, shards, whitelist, chunk[k])) is Ok);
            assert(chunk[k] == locks[start + k]);
            assert(lock_outcome(idx, shards, whitelist, locks[start + k]) is Err);
        }
    }
}

/// The holder access law: with access control on, a flow is admitted exactly when the cell
/// deps' shard index builds and every checked holder lock passes (listed in a whitelist,
/// unlisted in a blacklist, covered by a shard either way).
pub proof fn lemma_access_granted_iff_every_lock_passes(
    tx: TxView,
    list_hash: Seq<u8>,
    shards: Seq<Option<Vec<[u8; 32]>>>,
    whitelist: bool,
    checked: CheckedLocks,
)
    ensures
        access_outcome(tx, list_hash, shards, whitelist, checked) is Ok <==> (shard_index_of(tx, list_hash) matches Ok(idx)
            && forall|i: int| 0 <= i < checked_lock_hashes(tx, checked).len()
                ==> (#[trigger] lock_outcome(idx, shards, whitelist, checked_lock_hashes(tx, checked)[i])) is Ok),
{
    let locks = checked_lock_hashes(tx, checked);
    assert forall|j: int| 0 <= j < locks.len() implies (#[trigger] locks[j]).len() == 32 by {
        let ins = lock_hashes(tx.group_inputs@);
        let outs = lock_hashes(tx.group_outputs@);
        match checked {
            CheckedLocks::Outputs => {
                assert(locks[j] == tx.group_outputs@[j].lock_hash@);
            },
            CheckedLocks::InputsAndOutputs => {
                if j < ins.len() {
                    assert(locks[j] == tx.group_inputs@[j].lock_hash@);
                } else {
                    assert(locks[j] == outs[j - ins.len()]);
                    assert(outs[j - ins.len()] == tx.group_outputs@[j - ins.len()].lock_hash@);
                }
            },
        }
    }
    if let Ok(idx) = shard_index_of(tx, list_hash) {
        lemma_batches_accept_iff_all_pass(locks, idx, shards, whitelist, 0);
    }
}

/// Keys in strictly increasing order.
pub open spec fn sorted_strictly(s: Seq<[u8; 32]>) -> bool {
    forall|i: int, j: int| 0 <= i < j < s.len() ==> key_lt(#[trigger] s[i]@, #[trigger] s[j]@)
}

/// The two lists hold the same keys.
pub open spec fn same_keys(s: Seq<[u8; 32]>, batch: Seq<Seq<u8>>) -> bool {
    keys_v(s).to_set() == batch.to_set()
}

/// Only one shard is the first not ending before a lock.
proof fn lemma_first_not_before_unique(idx: Seq<(Seq<u8>, Seq<u8>, nat)>, lock: Seq<u8>, k: int)
    requires
        first_not_before(idx, lock, k),
    ensures
        !(forall|j: int| 0 <= j < idx.len() ==> key_lt(#[trigger] idx[j].1, lock)),
        (choose|m: int| first_not_before(idx, lock, m)) == k,
{
    let m = choose|m: int| first_not_before(idx, lock, m);
    assert(first_not_before(idx, lock, m));
    if m < k {
        assert(key_lt(idx[m].1, lock));
    } else if k < m {
        assert(key_lt(idx[k].1, lock));
    }
}

/// Where a sorted key stands among the batch, and where a batch key stands among the sorted.
proof fn lemma_same_keys_witness(s: Seq<[u8; 32]>, batch: Seq<Seq<u8>>, i: int, j: int)
    requires
        same_keys(s, batch),
    ensures
        0 <= i < s.len() ==> exists|w: int| 0 <= w < batch.len() && batch[w] == s[i]@,
        0 <= j < batch.len() ==> exists|w: int| 0 <= w < s.len() && batch[j] == s[w]@,
{
    if 0 <= i < s.len() {
        assert(keys_v(s)[i] == s[i]@);
        assert(keys_v(s).to_set().contains(s[i]@));
        assert(batch.to_set().contains(s[i]@));
    }
    if 0 <= j < batch.len() {
        assert(batch.to_set().contains(batch[j]));
        assert(keys_v(s).to_set().contains(batch[j]));
        let w = choose|w: int| 0 <= w < keys_v(s).len() && keys_v(s)[w] == batch[j];
        assert(batch[j] == s[w]@);
    }
}

/// The sorted lock at `k` fails and every earlier one passes: it is the least failing lock of
/// the batch, and its outcome is the batch's.
proof fn lemma_least_failing(
    batch: Seq<Seq<u8>>,
    sorted: Seq<[u8; 32]>,
    idx: Seq<(Seq<u8>, Seq<u8>, nat)>,
    shards: Seq<Option<Vec<[u8; 32]>>>,
    whitelist: bool,
    k: int,
)
    requires
        sorted_strictly(sorted),
        same_keys(sorted, batch),
        0 <= k < sorted.len(),
        lock_outcome(idx, shards, whitelist, sorted[k]@) is Err,
        all_pass_upto(sorted, idx, shards, whitelist, k),
    ensures
        batch_outcome(batch, idx, shards, whitelist) == lock_outcome(idx, shards, whitelist, sorted[k]@),
{
    lemma_same_keys_witness(sorted, batch, k, -1);
    let w = choose|w: int| 0 <= w < batch.len() && batch[w] == sorted[k]@;
    assert forall|j: int| 0 <= j < batch.len() && (#[trigger] lock_outcome(idx, shards, whitelist, batch[j])) is Err
        implies !key_lt(batch[j], batch[w]) by {
        lemma_same_keys_witness(sorted, batch, -1, j);
        let i = choose|i: int| 0 <= i < sorted.len() && batch[j] == sorted[i]@;
        if i < k {
            assert(lock_outcome(idx, shards, whitelist, sorted[i]@) is Ok);
        } else if i > k {
            assert(key_lt(sorted[k]@, sorted[i]@));
            lemma_key_lt_asym(sorted[k]@, sorted[i]@);
        } else {
            lemma_key_lt_irrefl(sorted[k]@);
        }
    }
    assert(least_failing(batch, idx, shards, whitelist, w));
    assert(lock_outcome(idx, shards, whitelist, batch[w]) is Err);
    let c = choose|i: int| least_failing(batch, idx, shards, whitelist, i);
    assert(least_failing(batch, idx, shards, whitelist, c));
    assert(!key_lt(batch[c], batch[w]));
    assert(!key_lt(batch[w], batch[c]));
    lemma_same_keys_witness(sorted, batch, -1, c);
    let ic = choose|i: int| 0 <= i < sorted.len() && batch[c] == sorted[i]@;
    lemma_key_total(batch[c], batch[w]);
}

/// Every sorted lock passes: the batch passes.
proof fn lemma_all_pass(
    batch: Seq<Seq<u8>>,
    sorted: Seq<[u8; 32]>,
    idx: Seq<(Seq<u8>, Seq<u8>, nat)>,
    shards: Seq<Option<Vec<[u8; 32]>>>,
    whitelist: bool,
)
    requires
        same_keys(sorted, batch),
        all_pass_upto(sorted, idx, shards, whitelist, sorted.len() as int),
    ensures
        batch_outcome(batch, idx, shards, whitelist) == Ok::<(), Error>(()),
{
    assert forall|j: int| 0 <= j < batch.len() implies (#[trigger] lock_outcome(idx, shards, whitelist, batch[j])) is Ok by {
        lemma_same_keys_witness(sorted, batch, -1, j);
        let i = choose|i: int| 0 <= i < sorted.len() && batch[j] == sorted[i]@;
        assert(lock_outcome(idx, shards, whitelist, sorted[i]@) is Ok);
    }
}

/// The batch's locks, sorted and without repeats.
pub fn sort_dedup_locks(locks: &[[u8; 32]]) -> (r: Vec<[u8; 32]>)
    ensures
        sorted_strictly(r@),
        same_keys(r@, keys_v(locks@)),
{
    let ghost batch = keys_v(locks@);
    let mut out: Vec<[u8; 32]> = Vec::new();
    let mut i: usize = 0;
    assert(keys_v(out@).to_set() =~= batch.subrange(0, 0).to_set());
    while i < locks.len()
        invariant
            i <= locks@.len(),
            batch == keys_v(locks@),
            sorted_strictly(out@),
            keys_v(out@).to_set() == batch.subrange(0, i as int).to_set(),
        decreases locks@.len() - i,
    {
        let x = locks[i];
        proof {
            assert(batch[i as int] == x@);
            assert(batch.subrange(0, i + 1) =~= batch.subrange(0, i as int).push(x@));
            batch.subrange(0, i as int).lemma_push_to_set_commute(x@);
        }
        let mut p: usize = 0;
        while p < out.len() && key_before(&out[p], &x)
            invariant
                p <= out@.len(),
                forall|a: int| 0 <= a < p ==> key_lt(#[trigger] out@[a]@, x@),
            decreases out@.len() - p,
        {
            p = p + 1;
        }
        if p < out.len() && byte32_eq(&out[p], &x) {
            proof {
                assert(keys_v(out@)[p as int] == x@);
                assert(keys_v(out@).to_set().contains(x@));
                assert(keys_v(out@).to_set().insert(x@) =~= keys_v(out@).to_set());
            }
        } else {
            proof {
                if p < out@.len() {
                    lemma_key_total(out@[p as int]@, x@);
                }
            }
            let ghost before = out@;
            out.insert(p, x);
            proof {
                lemma_insert_sorted(before, out@, p as int, x);
            }
        }
        i = i + 1;
    }
    proof {
        assert(batch.subrange(0, locks@.len() as int) =~= batch);
    }
    out
}

/// Inserting a key where it keeps the order into sorted distinct keys keeps them sorted and
/// adds the key to their set.
proof fn lemma_insert_sorted(before: Seq<[u8; 32]>, out: Seq<[u8; 32]>, p: int, x: [u8; 32])
    requires
        0 <= p <= before.len(),
        out == before.insert(p, x),
        sorted_strictly(before),
        forall|a: int| 0 <= a < p ==> key_lt(#[trigger] before[a]@, x@),
        p < before.len() ==> key_lt(x@, before[p]@),
    ensures
        sorted_strictly(out),
        keys_v(out).to_set() == keys_v(before).to_set().insert(x@),
{
    assert forall|a: int, b: int| 0 <= a < b < out.len() implies key_lt(#[trigger] out[a]@, #[trigger] out[b]@) by {
        if b < p {
            assert(out[a] == before[a] && out[b] == before[b]);
        } else if b == p {
            assert(out[a] == before[a]);
        } else if a < p {
            assert(out[a] == before[a] && out[b] == before[b - 1]);
            lemma_key_lt_trans(before[a]@, x@, before[p]@);
            if b - 1 > p {
                assert(key_lt(before[p]@, before[b - 1]@));
                lemma_key_lt_trans(before[a]@, before[p]@, before[b - 1]@);
            }
        } else if a == p {
            assert(out[b] == before[b - 1]);
            if b - 1 > p {
                assert(key_lt(before[p]@, before[b - 1]@));
                lemma_key_lt_trans(x@, before[p]@, before[b - 1]@);
            }
        } else {
            assert(out[a] == before[a - 1] && out[b] == before[b - 1]);
        }
    }
    let kb = keys_v(before);
    let ko = keys_v(out);
    assert(ko =~= kb.insert(p, x@));
    assert forall|k: Seq<u8>| ko.to_set().contains(k) <==> kb.to_set().insert(x@).contains(k) by {
        if ko.to_set().contains(k) {
            let i = choose|i: int| 0 <= i < ko.len() && ko[i] == k;
            if i < p {
                assert(kb[i] == k);
            } else if i > p {
                assert(kb[i - 1] == k);
            }
        }
        if kb.to_set().insert(x@).contains(k) {
            if k == x@ {
                assert(ko[p] == k);
            } else {
                let i = choose|i: int| 0 <= i < kb.len() && kb[i] == k;
                if i < p {
                    assert(ko[i] == k);
                } else {
                    assert(ko[i + 1] == k);
                }
            }
        }
    }
    assert(ko.to_set() =~= kb.to_set().insert(x@));
}

/// Whether the strictly increasing entries hold the key, by binary search.
pub fn binary_contains(entries: &Vec<[u8; 32]>, key: &[u8; 32]) -> (r: bool)
    requires
        entries_sorted(entries@),
    ensures
        r == entries_contain(entries@, key@),
{
    let mut lo: usize = 0;
    let mut hi: usize = entries.len();
    while lo < hi
        invariant
            lo <= hi <= entries@.len(),
            entries_sorted(entries@),
            forall|i: int| 0 <= i < lo ==> key_lt(#[trigger] entries@[i]@, key@),
            forall|i: int| hi <= i < entries@.len() ==> key_lt(key@, #[trigger] entries@[i]@),
        decreases hi - lo,
    {
        let mid = lo + (hi - lo) / 2;
        if byte32_eq(&entries[mid], key) {
            return true;
        }
        if key_before(&entries[mid], key) {
            proof {
                assert forall|i: int| 0 <= i < mid + 1 implies key_lt(#[trigger] entries@[i]@, key@) by {
                    if i < mid {
                        assert(key_lt(entries@[i]@, entries@[mid as int]@));
                        lemma_key_lt_trans(entries@[i]@, entries@[mid as int]@, key@);
                    }
                }
            }
            lo = mid + 1;
        } else {
            proof {
                lemma_key_total(entries@[mid as int]@, key@);
                assert forall|i: int| mid <= i < entries@.len() implies key_lt(key@, #[trigger] entries@[i]@) by {
                    if i > mid {
                        assert(key_lt(entries@[mid as int]@, entries@[i]@));
                        lemma_key_lt_trans(key@, entries@[mid as int]@, entries@[i]@);
                    }
                }
            }
            hi = mid;
        }
    }
    proof {
        assert forall|i: int| 0 <= i < entries@.len() implies (#[trigger] entries@[i])@ != key@ by {
            lemma_key_lt_irrefl(key@);
        }
    }
    false
}

/// The shard covers the lock: start at or before it, end at or after it.
pub fn shard_covers_index(shard: &ShardIndex, lock_hash: &[u8; 32]) -> (r: bool)
    ensures
        r == (!key_lt(lock_hash@, shard.start@) && !key_lt(shard.end@, lock_hash@)),
{
    !key_before(lock_hash, &shard.start) && !key_before(&shard.end, lock_hash)
}

/// A failed index build stays failed over more cell deps.
proof fn lemma_index_err_sticky(deps: Seq<CellView>, list_hash: Seq<u8>, k: nat, m: nat)
    requires
        k <= m,
        shard_index_upto(deps, list_hash, k) is Err,
    ensures
        shard_index_upto(deps, list_hash, m) == shard_index_upto(deps, list_hash, k),
    decreases m - k,
{
    if k < m {
        lemma_index_err_sticky(deps, list_hash, k, (m - 1) as nat);
    }
}

/// The index built over the first `n` deps names only deps before `n`.
proof fn lemma_index_in_deps(deps: Seq<CellView>, list_hash: Seq<u8>, n: nat)
    requires
        shard_index_upto(deps, list_hash, n) is Ok,
    ensures
        index_in_deps(shard_index_upto(deps, list_hash, n)->Ok_0, n),
    decreases n,
{
    if n > 0 {
        lemma_index_in_deps(deps, list_hash, (n - 1) as nat);
        let prev = shard_index_upto(deps, list_hash, (n - 1) as nat)->Ok_0;
        let cur = shard_index_upto(deps, list_hash, n)->Ok_0;
        assert forall|k: int| 0 <= k < cur.len() implies (#[trigger] cur[k]).2 < n by {
            if k < prev.len() {
                assert(cur[k] == prev[k]);
            }
        }
    }
}

/// Indexes the AccessList shards the cell deps provide: each dep whose type hash is the bound
/// AccessList script's, with its range; ranges must come in order without overlap.
pub fn build_shard_index(tx: &TxView, access_list_type_hash: &[u8; 32]) -> (r: Result<Vec<ShardIndex>, Error>)
    ensures
        match r {
            Ok(v) => shard_index_of(*tx, access_list_type_hash@) == Ok::<Seq<(Seq<u8>, Seq<u8>, nat)>, Error>(index_v(v@))
                && index_in_deps(index_v(v@), tx.cell_deps@.len()),
            Err(e) => shard_index_of(*tx, access_list_type_hash@) == Err::<Seq<(Seq<u8>, Seq<u8>, nat)>, Error>(e),
        },
{
    let deps = &tx.cell_deps;
    let mut indexes: Vec<ShardIndex> = Vec::new();
    let mut index: usize = 0;
    assert(index_v(indexes@) =~= Seq::<(Seq<u8>, Seq<u8>, nat)>::empty());
    while index < deps.len()
        invariant
            index <= deps@.len(),
            deps@ == tx.cell_deps@,
            shard_index_upto(deps@, access_list_type_hash@, index as nat) == Ok::<Seq<(Seq<u8>, Seq<u8>, nat)>, Error>(index_v(indexes@)),
        decreases deps@.len() - index,
    {
        let hit = match &deps[index].type_hash {
            Some(h) => byte32_eq(h, access_list_type_hash),
            None => false,
        };
        assert(hit == type_hash_is(deps@[index as int], access_list_type_hash@));
        if hit {
            let (start, end) = match load_access_list_range(deps[index].data.as_slice()) {
                Ok(r) => r,
                Err(e) => {
                    proof {
                        lemma_index_err_sticky(deps@, access_list_type_hash@, (index + 1) as nat, deps@.len());
                    }
                    return Err(e);
                },
            };
            let n = indexes.len();
            if n > 0 {
                assert(index_v(indexes@).last() == shard_v(indexes@[n - 1]));
                if !byte32_lt(&indexes[n - 1].end, &start) {
                    proof {
                        lemma_index_err_sticky(deps@, access_list_type_hash@, (index + 1) as nat, deps@.len());
                    }
                    return Err(Error::InvalidShardData);
                }
            }
            let ghost before = indexes@;
            indexes.push(ShardIndex { start, end, dep_index: index });
            assert(index_v(indexes@) =~= index_v(before).push((start@, end@, index as nat)));
        }
        index = index + 1;
    }
    proof {
        lemma_index_in_deps(deps@, access_list_type_hash@, deps@.len());
    }
    Ok(indexes)
}

/// Reads a shard's range from the first 76 bytes of its data.
pub fn load_access_list_range(data: &[u8]) -> (r: Result<([u8; 32], [u8; 32]), Error>)
    ensures
        match r {
            Ok(range) => range_prefix_of(data@) == Some((range.0@, range.1@)),
            Err(e) => range_prefix_of(data@) is None && e == Error::InvalidShardData,
        },
{
    let data_len = data.len();
    if data_len < ACCESS_LIST_RANGE_PREFIX_SIZE {
        return Err(Error::InvalidShardData);
    }
    let total_size = match read_u32(data, 0) {
        Ok(v) => v as usize,
        Err(_) => return Err(Error::InvalidShardData),
    };
    let range_offset = match read_u32(data, 4) {
        Ok(v) => v as usize,
        Err(_) => return Err(Error::InvalidShardData),
    };
    let entries_offset = match read_u32(data, 8) {
        Ok(v) => v as usize,
        Err(_) => return Err(Error::InvalidShardData),
    };
    if total_size != data_len || range_offset < ACCESS_LIST_HEADER_SIZE || entries_offset < range_offset
        || entries_offset - range_offset != ACCESS_LIST_RANGE_SIZE || entries_offset > data_len
        || entries_offset > ACCESS_LIST_RANGE_PREFIX_SIZE {
        return Err(Error::InvalidShardData);
    }
    let start = copy_byte32(data, range_offset);
    let end = copy_byte32(data, range_offset + 32);
    if byte32_lt(&end, &start) {
        return Err(Error::InvalidShardData);
    }
    Ok((start, end))
}

/// The shard index is sorted: each range holds 32-byte keys, starts at or before its end, and
/// ends strictly before the next range starts.
pub open spec fn index_ordered(idx: Seq<(Seq<u8>, Seq<u8>, nat)>) -> bool {
    &&& forall|k: int| 0 <= k < idx.len() ==> (#[trigger] idx[k]).0.len() == 32 && idx[k].1.len() == 32
        && lex_le(idx[k].0, idx[k].1)
    &&& forall|j: int, k: int| 0 <= j < k < idx.len() ==> lex_lt(#[trigger] idx[j].1, #[trigger] idx[k].0)
}

/// Shard `k` of the index holds `lock` in its range.
pub open spec fn shard_holds(idx: Seq<(Seq<u8>, Seq<u8>, nat)>, k: int, lock: Seq<u8>) -> bool {
    lex_le(idx[k].0, lock) && lex_le(lock, idx[k].1)
}

/// Some shard of the index holds `lock`, and its entries list the lock exactly when `listed`.
pub open spec fn held_and_listed(
    idx: Seq<(Seq<u8>, Seq<u8>, nat)>,
    shards: Seq<Option<Vec<[u8; 32]>>>,
    lock: Seq<u8>,
    listed: bool,
) -> bool {
    exists|k: int| 0 <= k < idx.len() && #[trigger] shard_holds(idx, k, lock)
        && (shards[idx[k].2 as int] matches Some(e) && entries_contain(e@, lock) == listed)
}

/// `a < b <= c < d` gives `a < d`, on keys of one width.
proof fn lemma_lt_le_lt(a: Seq<u8>, b: Seq<u8>, c: Seq<u8>, d: Seq<u8>)
    requires
        a.len() == b.len() && b.len() == c.len() && c.len() == d.len(),
        lex_lt(a, b),
        lex_le(b, c),
        lex_lt(c, d),
    ensures
        lex_lt(a, d),
{
    if b == c {
        lemma_lex_lt_trans(a, c, d);
    } else {
        lemma_lex_lt_trans(a, b, c);
        lemma_lex_lt_trans(a, c, d);
    }
}

/// An index built from the cell deps is sorted.
proof fn lemma_index_upto_ordered(deps: Seq<CellView>, list_hash: Seq<u8>, n: nat)
    ensures
        shard_index_upto(deps, list_hash, n) matches Ok(idx) ==> index_ordered(idx),
    decreases n,
{
    if n > 0 {
        lemma_index_upto_ordered(deps, list_hash, (n - 1) as nat);
        if let Ok(prev) = shard_index_upto(deps, list_hash, (n - 1) as nat) {
            if type_hash_is(deps[n - 1], list_hash) {
                if let Some(r) = range_prefix_of(deps[n - 1].data@) {
                    if prev.len() == 0 || lex_lt(prev.last().1, r.0) {
                        let idx = prev.push((r.0, r.1, (n - 1) as nat));
                        assert(r.0.len() == 32 && r.1.len() == 32);
                        if !lex_le(r.0, r.1) {
                            lemma_lex_total(r.0, r.1);
                        }
                        assert forall|j: int, k: int| 0 <= j < k < idx.len() implies lex_lt(#[trigger] idx[j].1, #[trigger] idx[k].0) by {
                            if k == prev.len() && j < prev.len() - 1 {
                                let l = prev.len() - 1;
                                assert(lex_lt(prev[j].1, prev[l].0));
                                lemma_lt_le_lt(prev[j].1, prev[l].0, prev[l].1, r.0);
                            } else if k < prev.len() {
                                assert(lex_lt(prev[j].1, prev[k].0));
                            }
                        }
                        assert forall|k: int| 0 <= k < idx.len() implies (#[trigger] idx[k]).0.len() == 32 && idx[k].1.len() == 32
                            && lex_le(idx[k].0, idx[k].1) by {
                            if k < prev.len() {
                                assert(idx[k] == prev[k]);
                            }
                        }
                    }
                }
            }
        }
    }
}

/// The index of the cell deps' shards is sorted.
pub proof fn lemma_shard_index_ordered(tx: TxView, list_hash: Seq<u8>)
    ensures
        shard_index_of(tx, list_hash) matches Ok(idx) ==> index_ordered(idx),
{
    lemma_index_upto_ordered(tx.cell_deps@, list_hash, tx.cell_deps@.len());
}

/// No shard other than one that holds the lock holds it too.
proof fn lemma_holder_unique(idx: Seq<(Seq<u8>, Seq<u8>, nat)>, lock: Seq<u8>, k: int, m: int)
    requires
        index_ordered(idx),
        lock.len() == 32,
        0 <= k < idx.len(),
        0 <= m < idx.len(),
        shard_holds(idx, k, lock),
        shard_holds(idx, m, lock),
    ensures
        k == m,
{
    if m < k {
        assert(lex_lt(idx[m].1, idx[k].0));
        if lex_lt(lock, idx[m].1) || lock == idx[m].1 {
            if lock == idx[m].1 {
                assert(lex_lt(lock, idx[k].0));
            } else {
                lemma_lex_lt_trans(lock, idx[m].1, idx[k].0);
            }
            lemma_lex_le_not_lt(idx[k].0, lock);
        }
    } else if k < m {
        assert(lex_lt(idx[k].1, idx[m].0));
        if lock == idx[k].1 {
            assert(lex_lt(lock, idx[m].0));
        } else {
            lemma_lex_lt_trans(lock, idx[k].1, idx[m].0);
        }
        lemma_lex_le_not_lt(idx[m].0, lock);
    }
}

/// Some shard does not end before the lock, so a first such shard exists.
proof fn lemma_first_not_before_exists(idx: Seq<(Seq<u8>, Seq<u8>, nat)>, lock: Seq<u8>, j: int)
    requires
        0 <= j < idx.len(),
        !key_lt(idx[j].1, lock),
    ensures
        exists|k: int| first_not_before(idx, lock, k),
    decreases j,
{
    if forall|i: int| 0 <= i < j ==> key_lt(#[trigger] idx[i].1, lock) {
        assert(first_not_before(idx, lock, j));
    } else {
        let i = choose|i: int| 0 <= i < j && !key_lt(#[trigger] idx[i].1, lock);
        lemma_first_not_before_exists(idx, lock, i);
    }
}

/// With a sorted shard index, the lock check means what the access modes say: a lock passes a
/// whitelist exactly when a shard's range holds it and the shard lists it, and a blacklist
/// exactly when a shard's range holds it and the shard does not list it.
pub proof fn lemma_lock_passes_iff_held_and_listed(
    idx: Seq<(Seq<u8>, Seq<u8>, nat)>,
    shards: Seq<Option<Vec<[u8; 32]>>>,
    whitelist: bool,
    lock: Seq<u8>,
)
    requires
        index_ordered(idx),
        lock.len() == 32,
    ensures
        lock_outcome(idx, shards, whitelist, lock) is Ok <==> held_and_listed(idx, shards, lock, whitelist),
{
    reveal(key_lt);
    if forall|j: int| 0 <= j < idx.len() ==> key_lt(#[trigger] idx[j].1, lock) {
        if held_and_listed(idx, shards, lock, whitelist) {
            let m = choose|m: int| 0 <= m < idx.len() && #[trigger] shard_holds(idx, m, lock)
                && (shards[idx[m].2 as int] matches Some(e) && entries_contain(e@, lock) == whitelist);
            assert(key_lt(idx[m].1, lock));
            lemma_lex_le_not_lt(lock, idx[m].1);
        }
    } else {
        let k = choose|k: int| first_not_before(idx, lock, k);
        assert(exists|k: int| first_not_before(idx, lock, k)) by {
            let j0 = choose|j: int| 0 <= j < idx.len() && !key_lt(#[trigger] idx[j].1, lock);
            lemma_first_not_before_exists(idx, lock, j0);
        }
        assert(first_not_before(idx, lock, k));
        if !lex_le(lock, idx[k].1) {
            lemma_lex_total(lock, idx[k].1);
        }
        if key_lt(lock, idx[k].0) {
            if held_and_listed(idx, shards, lock, whitelist) {
                let m = choose|m: int| 0 <= m < idx.len() && #[trigger] shard_holds(idx, m, lock)
                    && (shards[idx[m].2 as int] matches Some(e) && entries_contain(e@, lock) == whitelist);
                if m < k {
                    assert(key_lt(idx[m].1, lock));
                    lemma_lex_le_not_lt(lock, idx[m].1);
                } else if m == k {
                    lemma_lex_le_not_lt(idx[k].0, lock);
                } else {
                    assert(lex_lt(idx[k].1, idx[m].0));
                    assert(lex_le(idx[k].0, idx[k].1));
                    lemma_lt_le_lt(lock, idx[k].0, idx[k].1, idx[m].0);
                    lemma_lex_le_not_lt(idx[m].0, lock);
                }
            }
        } else {
            if !lex_le(idx[k].0, lock) {
                lemma_lex_total(idx[k].0, lock);
            }
            assert(shard_holds(idx, k, lock));
            if held_and_listed(idx, shards, lock, whitelist) {
                let m = choose|m: int| 0 <= m < idx.len() && #[trigger] shard_holds(idx, m, lock)
                    && (shards[idx[m].2 as int] matches Some(e) && entries_contain(e@, lock) == whitelist);
                lemma_holder_unique(idx, lock, k, m);
            }
        }
    }
}

/// The holder access law in the terms of the access modes: with access control on, a flow is
/// admitted exactly when the cell deps' shard index builds and every checked holder lock is held
/// by a shard's range and, in a whitelist, listed by that shard, in a blacklist not listed.
pub proof fn lemma_access_granted_iff_holders_listed(
    tx: TxView,
    list_hash: Seq<u8>,
    shards: Seq<Option<Vec<[u8; 32]>>>,
    whitelist: bool,
    checked: CheckedLocks,
)
    ensures
        access_outcome(tx, list_hash, shards, whitelist, checked) is Ok <==> (shard_index_of(tx, list_hash) matches Ok(idx)
            && forall|i: int| 0 <= i < checked_lock_hashes(tx, checked).len()
                ==> #[trigger] held_and_listed(idx, shards, checked_lock_hashes(tx, checked)[i], whitelist)),
{
    lemma_access_granted_iff_every_lock_passes(tx, list_hash, shards, whitelist, checked);
    lemma_shard_index_ordered(tx, list_hash);
    let locks = checked_lock_hashes(tx, checked);
    if let Ok(idx) = shard_index_of(tx, list_hash) {
        assert forall|i: int| 0 <= i < locks.len() implies
            (#[trigger] lock_outcome(idx, shards, whitelist, locks[i]) is Ok) == held_and_listed(idx, shards, locks[i], whitelist) by {
            let ins = lock_hashes(tx.group_inputs@);
            let outs = lock_hashes(tx.group_outputs@);
            match checked {
                CheckedLocks::Outputs => {
                    assert(locks[i] == tx.group_outputs@[i].lock_hash@);
                },
                CheckedLocks::InputsAndOutputs => {
                    if i < ins.len() {
                        assert(locks[i] == tx.group_inputs@[i].lock_hash@);
                    } else {
                        assert(locks[i] == outs[i - ins.len()]);
                        assert(outs[i - ins.len()] == tx.group_outputs@[i - ins.len()].lock_hash@);
                    }
                },
            }
            lemma_lock_passes_iff_held_and_listed(idx, shards, whitelist, locks[i]);
        }
        if forall|i: int| 0 <= i < locks.len() ==> #[trigger] held_and_listed(idx, shards, locks[i], whitelist) {
            assert forall|i: int| 0 <= i < locks.len() implies (#[trigger] lock_outcome(idx, shards, whitelist, locks[i])) is Ok by {
                assert(held_and_listed(idx, shards, locks[i], whitelist));
            }
        }
        if forall|i: int| 0 <= i < locks.len() ==> (#[trigger] lock_outcome(idx, shards, whitelist, locks[i])) is Ok {
            assert forall|i: int| 0 <= i < locks.len() implies #[trigger] held_and_listed(idx, shards, locks[i], whitelist) by {
                assert(lock_outcome(idx, shards, whitelist, locks[i]) is Ok);
            }
        }
    }
}

/// With access control on, a flow whose inputs and outputs are checked is admitted only when
/// the cell deps' shard index builds and every group input holder and every group output holder
/// is held by a shard's range and listed by that shard exactly when the list is a whitelist.
pub proof fn lemma_admitted_holders(tx: TxView, list_hash: Seq<u8>, shards: Seq<Option<Vec<[u8; 32]>>>, whitelist: bool)
    requires
        access_outcome(tx, list_hash, shards, whitelist, CheckedLocks::InputsAndOutputs) is Ok,
    ensures
        shard_index_of(tx, list_hash) matches Ok(idx)
            && (forall|i: int| 0 <= i < tx.group_inputs@.len()
                ==> #[trigger] held_and_listed(idx, shards, tx.group_inputs@[i].lock_hash@, whitelist))
            && (forall|i: int| 0 <= i < tx.group_outputs@.len()
                ==> #[trigger] held_and_listed(idx, shards, tx.group_outputs@[i].lock_hash@, whitelist)),
{
    lemma_access_granted_iff_holders_listed(tx, list_hash, shards, whitelist, CheckedLocks::InputsAndOutputs);
    let idx = shard_index_of(tx, list_hash).unwrap();
    let locks = checked_lock_hashes(tx, CheckedLocks::InputsAndOutputs);
    let ins = lock_hashes(tx.group_inputs@);
    let outs = lock_hashes(tx.group_outputs@);
    assert forall|i: int| 0 <= i < tx.group_inputs@.len()
        implies #[trigger] held_and_listed(idx, shards, tx.group_inputs@[i].lock_hash@, whitelist) by {
        assert(locks[i] == ins[i]);
        assert(held_and_listed(idx, shards, locks[i], whitelist));
    }
    assert forall|i: int| 0 <= i < tx.group_outputs@.len()
        implies #[trigger] held_and_listed(idx, shards, tx.group_outputs@[i].lock_hash@, whitelist) by {
        assert(locks[ins.len() + i] == outs[i]);
        assert(held_and_listed(idx, shards, locks[ins.len() + i], whitelist));
    }
}

/// With access control on, a flow whose outputs alone are checked is admitted only when the
/// cell deps' shard index builds and every group output holder is held by a shard's range and
/// listed by that shard exactly when the list is a whitelist.
pub proof fn lemma_admitted_receivers(tx: TxView, list_hash: Seq<u8>, shards: Seq<Option<Vec<[u8; 32]>>>, whitelist: bool)
    requires
        access_outcome(tx, list_hash, shards, whitelist, CheckedLocks::Outputs) is Ok,
    ensures
        shard_index_of(tx, list_hash) matches Ok(idx)
            && (forall|i: int| 0 <= i < tx.group_outputs@.len()
                ==> #[trigger] held_and_listed(idx, shards, tx.group_outputs@[i].lock_hash@, whitelist)),
{
    lemma_access_granted_iff_holders_listed(tx, list_hash, shards, whitelist, CheckedLocks::Outputs);
    let idx = shard_index_of(tx, list_hash).unwrap();
    let locks = checked_lock_hashes(tx, CheckedLocks::Outputs);
    assert forall|i: int| 0 <= i < tx.group_outputs@.len()
        implies #[trigger] held_and_listed(idx, shards, tx.group_outputs@[i].lock_hash@, whitelist) by {
        assert(locks[i] == tx.group_outputs@[i].lock_hash@);
        assert(held_and_listed(idx, shards, locks[i], whitelist));
    }
}

} // verus!
