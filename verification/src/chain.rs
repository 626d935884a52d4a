//! The transaction as the scripts see it: the cells of each source, as plain values.
use vstd::prelude::*;
use crate::byte32::byte32_eq;
use crate::bytes::bytes_eq;

verus! {

/// `hash_type` byte of a script bound by `Data2`.
pub const HASH_TYPE_DATA2: u8 = 4;

/// The code hashes of the scripts bound to a metadata cell: the token script and the AccessList
/// script, fixed when the metadata script is built.
pub struct CodeHashes {
    pub udt: [u8; 32],
    pub access_list: [u8; 32],
}

/// Where a cell is read from.
#[derive(Clone, Copy, Debug, PartialEq, Eq, Structural)]
pub enum Source {
    Input,
    Output,
    CellDep,
    GroupInput,
    GroupOutput,
}

/// A script: code hash, hash type and arguments.
pub struct ScriptView {
    pub code_hash: [u8; 32],
    pub hash_type: u8,
    pub args: Vec<u8>,
}

/// A cell: its lock (and lock hash), its optional type script (and type hash), its data.
pub struct CellView {
    pub lock_hash: [u8; 32],
    pub lock: ScriptView,
    pub type_script: Option<ScriptView>,
    pub type_hash: Option<[u8; 32]>,
    pub data: Vec<u8>,
}

/// The running script's arguments and hash, and the cells of every source.
pub struct TxView {
    pub script_args: Vec<u8>,
    pub script_hash: [u8; 32],
    pub inputs: Vec<CellView>,
    pub outputs: Vec<CellView>,
    pub cell_deps: Vec<CellView>,
    pub group_inputs: Vec<CellView>,
    pub group_outputs: Vec<CellView>,
}

impl TxView {
    /// The cells of a source.
    pub open spec fn cells_of(&self, source: Source) -> Seq<CellView> {
        match source {
            Source::Input => self.inputs@,
            Source::Output => self.outputs@,
            Source::CellDep => self.cell_deps@,
            Source::GroupInput => self.group_inputs@,
            Source::GroupOutput => self.group_outputs@,
        }
    }

    /// The cells of a source.
    pub fn cells(&self, source: Source) -> (r: &Vec<CellView>)
        ensures
            r@ == self.cells_of(source),
    {
        match source {
            Source::Input => &self.inputs,
            Source::Output => &self.outputs,
            Source::CellDep => &self.cell_deps,
            Source::GroupInput => &self.group_inputs,
            Source::GroupOutput => &self.group_outputs,
        }
    }
}

/// A type script bound to a metadata cell: `Data2` hash type, the metadata type hash as its
/// whole arguments, and the expected code hash.
pub open spec fn bound_script(s: ScriptView, meta_type_hash: Seq<u8>, code_hash: Seq<u8>) -> bool {
    &&& s.hash_type == HASH_TYPE_DATA2
    &&& s.args@ == meta_type_hash
    &&& s.code_hash@ == code_hash
}

/// Whether a type script is bound to the metadata cell with the given code hash.
pub fn is_bound_script(s: &ScriptView, meta_type_hash: &[u8; 32], code_hash: &[u8; 32]) -> (r: bool)
    ensures
        r == bound_script(*s, meta_type_hash@, code_hash@),
{
    if s.hash_type != HASH_TYPE_DATA2 {
        return false;
    }
    if !bytes_eq(s.args.as_slice(), meta_type_hash) {
        return false;
    }
    byte32_eq(&s.code_hash, code_hash)
}

/// The cell at `i` carries a type script bound to the metadata cell with the given code hash.
pub open spec fn bound_cell(c: CellView, meta_type_hash: Seq<u8>, code_hash: Seq<u8>) -> bool {
    c.type_script matches Some(s) && bound_script(s, meta_type_hash, code_hash)
}

/// Whether some cell carries a type script bound to the metadata cell with the given code hash.
pub fn has_bound_cell(cells: &Vec<CellView>, meta_type_hash: &[u8; 32], code_hash: &[u8; 32]) -> (r:
    bool)
    ensures
        r == exists|i: int| 0 <= i < cells@.len() && bound_cell(#[trigger] cells@[i], meta_type_hash@, code_hash@),
{
    let mut i: usize = 0;
    while i < cells.len()
        invariant
            i <= cells@.len(),
            forall|j: int| 0 <= j < i ==> !bound_cell(#[trigger] cells@[j], meta_type_hash@, code_hash@),
        decreases cells@.len() - i,
    {
        match &cells[i].type_script {
            Some(s) => {
                if is_bound_script(s, meta_type_hash, code_hash) {
                    assert(bound_cell(cells@[i as int], meta_type_hash@, code_hash@));
                    return true;
                }
            },
            None => {},
        }
        i = i + 1;
    }
    false
}

/// The cell's lock hash is `target`.
pub open spec fn lock_hash_is(c: CellView, target: Seq<u8>) -> bool {
    c.lock_hash@ == target
}

/// Whether some cell has the given lock hash.
pub fn has_lock_hash(cells: &Vec<CellView>, target: &[u8; 32]) -> (r: bool)
    ensures
        r == exists|i: int| 0 <= i < cells@.len() && lock_hash_is(#[trigger] cells@[i], target@),
{
    let mut i: usize = 0;
    while i < cells.len()
        invariant
            i <= cells@.len(),
            forall|j: int| 0 <= j < i ==> !lock_hash_is(#[trigger] cells@[j], target@),
        decreases cells@.len() - i,
    {
        if byte32_eq(&cells[i].lock_hash, target) {
            return true;
        }
        i = i + 1;
    }
    false
}

/// The cell's type hash is `target`.
pub open spec fn type_hash_is(c: CellView, target: Seq<u8>) -> bool {
    c.type_hash matches Some(h) && h@ == target
}

/// Whether some cell has the given type hash.
pub fn has_type_hash(cells: &Vec<CellView>, target: &[u8; 32]) -> (r: bool)
    ensures
        r == exists|i: int| 0 <= i < cells@.len() && type_hash_is(#[trigger] cells@[i], target@),
{
    let mut i: usize = 0;
    while i < cells.len()
        invariant
            i <= cells@.len(),
            forall|j: int| 0 <= j < i ==> !type_hash_is(#[trigger] cells@[j], target@),
        decreases cells@.len() - i,
    {
        match &cells[i].type_hash {
            Some(h) => {
                if byte32_eq(h, target) {
                    return true;
                }
            },
            None => {},
        }
        i = i + 1;
    }
    false
}

/// Where the cells with a given type hash stand among a source's cells.
#[derive(Clone, Copy, Debug, PartialEq, Eq, Structural)]
pub enum Located {
    /// No cell has the type hash.
    Absent,
    /// Exactly one cell has it, at this index.
    Unique(usize),
    /// Several cells have it; the first is at this index.
    Several(usize),
}

/// Cell `i` is the first cell with type hash `target`.
pub open spec fn first_with_type_hash(cells: Seq<CellView>, target: Seq<u8>, i: int) -> bool {
    &&& 0 <= i < cells.len()
    &&& type_hash_is(cells[i], target)
    &&& forall|j: int| 0 <= j < i ==> !type_hash_is(#[trigger] cells[j], target)
}

/// Where the cells with a given type hash stand: none, exactly one, or several.
pub open spec fn located_spec(cells: Seq<CellView>, target: Seq<u8>, r: Located) -> bool {
    match r {
        Located::Absent => forall|j: int| 0 <= j < cells.len() ==> !type_hash_is(#[trigger] cells[j], target),
        Located::Unique(i) => first_with_type_hash(cells, target, i as int) && forall|j: int|
            i < j < cells.len() ==> !type_hash_is(#[trigger] cells[j], target),
        Located::Several(i) => first_with_type_hash(cells, target, i as int) && exists|j: int|
            i < j < cells.len() && type_hash_is(#[trigger] cells[j], target),
    }
}

/// Finds the cells of a source whose type hash is `target`.
pub fn locate_type_hash(cells: &Vec<CellView>, target: &[u8; 32]) -> (r: Located)
    ensures
        located_spec(cells@, target@, r),
{
    let mut first: Option<usize> = None;
    let mut i: usize = 0;
    while i < cells.len()
        invariant
            i <= cells@.len(),
            match first {
                None => forall|j: int| 0 <= j < i ==> !type_hash_is(#[trigger] cells@[j], target@),
                Some(f) => first_with_type_hash(cells@, target@, f as int) && f < i && forall|j: int|
                    f < j < i ==> !type_hash_is(#[trigger] cells@[j], target@),
            },
        decreases cells@.len() - i,
    {
        let hit = match &cells[i].type_hash {
            Some(h) => byte32_eq(h, target),
            None => false,
        };
        assert(hit == type_hash_is(cells@[i as int], target@));
        if hit {
            match first {
                None => {
                    first = Some(i);
                },
                Some(f) => {
                    return Located::Several(f);
                },
            }
        }
        i = i + 1;
    }
    match first {
        None => Located::Absent,
        Some(f) => Located::Unique(f),
    }
}

} // verus!
