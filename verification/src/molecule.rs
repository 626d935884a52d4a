//! Molecule tables: a total size, a header of field offsets, then the fields.
use vstd::prelude::*;
use crate::bytes::{copy_byte32, le_at, le_u128_at, le_u32_at};

verus! {

/// The field offsets a table header holds for `n` fields, followed by the table's size.
pub open spec fn header_offsets(d: Seq<u8>, n: nat) -> Seq<int> {
    Seq::new(n + 1, |i: int| if i < n { le_at(d, 4 + 4 * i, 4) as int } else { d.len() as int })
}

/// Offset `i` is not below offset `i - 1` and does not pass `total`.
pub open spec fn adjacent_ok(o: Seq<int>, i: int, total: int) -> bool {
    o[i - 1] <= o[i] && o[i] <= total
}

/// Offsets never decrease and none passes `total`.
pub open spec fn offsets_monotone(o: Seq<int>, total: int) -> bool {
    forall|i: int| 1 <= i < o.len() ==> #[trigger] adjacent_ok(o, i, total)
}

/// A table of exactly `fields` fields: the header (and the first offset word) fits, the size
/// word is the data's length, the first offset ends the header, and the offsets are monotone.
pub open spec fn exact_table(d: Seq<u8>, fields: nat) -> bool {
    &&& d.len() >= 4 + 4 * fields
    &&& d.len() >= 8
    &&& le_at(d, 0, 4) == d.len()
    &&& le_at(d, 4, 4) == 4 + 4 * fields
    &&& offsets_monotone(header_offsets(d, fields), d.len() as int)
}

/// A table of exactly `fields` fields, as a reader sees it that takes the first offset from the
/// offsets it reads: with no fields, the data is just a size word of `4`; otherwise an exact
/// table.
pub open spec fn sized_table(d: Seq<u8>, fields: nat) -> bool {
    if fields == 0 {
        d.len() == 4 && le_at(d, 0, 4) == 4
    } else {
        exact_table(d, fields)
    }
}

/// The number of fields a table header declares through its first offset.
pub open spec fn declared_fields(d: Seq<u8>) -> int {
    le_at(d, 4, 4) / 4 - 1
}

/// A table of at least `fields` fields (exactly `fields` unless `allow_extra`), and of at least
/// one: the size word is the data's length, the first offset is a multiple of four that ends
/// the header, and the offsets are monotone.
pub open spec fn flexible_table(d: Seq<u8>, fields: nat, allow_extra: bool) -> bool {
    &&& d.len() >= 4 + 4 * fields
    &&& d.len() >= 8
    &&& le_at(d, 0, 4) == d.len()
    &&& le_at(d, 4, 4) >= 4 + 4 * fields
    &&& le_at(d, 4, 4) >= 8
    &&& le_at(d, 4, 4) % 4 == 0
    &&& (allow_extra || declared_fields(d) == fields)
    &&& 4 + 4 * declared_fields(d) <= d.len()
    &&& offsets_monotone(header_offsets(d, declared_fields(d) as nat), d.len() as int)
}

/// The offsets a function returned are the header's offsets.
pub open spec fn offsets_match(o: Seq<usize>, d: Seq<u8>, n: nat) -> bool {
    &&& o.len() == n + 1
    &&& forall|i: int| 0 <= i <= n ==> o[i] as int == #[trigger] header_offsets(d, n)[i]
}

/// The bytes of field `i` of a table with offsets `o`.
pub open spec fn field(d: Seq<u8>, o: Seq<usize>, i: int) -> Seq<u8> {
    d.subrange(o[i] as int, o[i + 1] as int)
}

/// Reads the offsets of a table of exactly `fields` fields; `None` when the header is malformed.
pub fn exact_table_offsets(data: &[u8], fields: usize) -> (r: Option<Vec<usize>>)
    ensures
        r is Some <==> exact_table(data@, fields as nat),
        r matches Some(o) ==> offsets_match(o@, data@, fields as nat),
{
    let len = data.len();
    if len < 8 || (len - 4) / 4 < fields {
        return None;
    }
    assert(len >= 4 + 4 * fields) by (nonlinear_arith)
        requires
            len >= 8,
            (len - 4) / 4 >= fields,
    ;
    let total_size = le_u32_at(data, 0) as usize;
    if total_size != len {
        return None;
    }
    let first_offset = le_u32_at(data, 4) as usize;
    let expected_header = 4 + fields * 4;
    if first_offset != expected_header {
        return None;
    }
    let mut offsets: Vec<usize> = Vec::new();
    let mut index: usize = 0;
    while index < fields
        invariant
            len == data@.len(),
            len >= 4 + fields * 4,
            total_size == len,
            index <= fields,
            offsets@.len() == index,
            forall|i: int| 0 <= i < index ==> offsets@[i] as int == #[trigger] header_offsets(data@, fields as nat)[i],
        decreases fields - index,
    {
        let v = le_u32_at(data, 4 + index * 4) as usize;
        offsets.push(v);
        index = index + 1;
    }
    offsets.push(total_size);
    assert(offsets_match(offsets@, data@, fields as nat));
    let mut i: usize = 1;
    while i < offsets.len()
        invariant
            1 <= i <= offsets@.len(),
            offsets@.len() == fields + 1,
            total_size == len,
            len == data@.len(),
            offsets_match(offsets@, data@, fields as nat),
            forall|j: int| 1 <= j < i ==> #[trigger] adjacent_ok(header_offsets(data@, fields as nat), j, len as int),
        decreases offsets@.len() - i,
    {
        if offsets[i] < offsets[i - 1] || offsets[i] > total_size {
            assert(!adjacent_ok(header_offsets(data@, fields as nat), i as int, len as int));
            return None;
        }
        i = i + 1;
    }
    Some(offsets)
}

/// Reads the offsets of a table of exactly `fields` fields, taking the first offset from the
/// offsets read; `None` when the header is malformed.
pub fn sized_table_offsets(data: &[u8], fields: usize) -> (r: Option<Vec<usize>>)
    ensures
        r is Some <==> sized_table(data@, fields as nat),
        r matches Some(o) ==> offsets_match(o@, data@, fields as nat),
{
    if fields == 0 {
        if data.len() == 4 && le_u32_at(data, 0) == 4 {
            let mut o: Vec<usize> = Vec::new();
            o.push(4);
            assert(offsets_match(o@, data@, 0));
            Some(o)
        } else {
            None
        }
    } else {
        exact_table_offsets(data, fields)
    }
}

/// Reads the offsets of a table of at least `fields` fields (exactly `fields` unless
/// `allow_extra`); `None` when the header is malformed.
pub fn flexible_table_offsets(data: &[u8], fields: usize, allow_extra: bool) -> (r: Option<Vec<usize>>)
    ensures
        r is Some <==> flexible_table(data@, fields as nat, allow_extra),
        r matches Some(o) ==> offsets_match(o@, data@, declared_fields(data@) as nat),
{
    let len = data.len();
    if len < 8 || (len - 4) / 4 < fields {
        return None;
    }
    assert(len >= 4 + 4 * fields) by (nonlinear_arith)
        requires
            len >= 8,
            (len - 4) / 4 >= fields,
    ;
    let total_size = le_u32_at(data, 0) as usize;
    if total_size != len {
        return None;
    }
    let first_offset = le_u32_at(data, 4) as usize;
    if first_offset < 4 + fields * 4 || first_offset < 8 || first_offset % 4 != 0 {
        return None;
    }
    let actual_fields = first_offset / 4 - 1;
    if actual_fields < fields || (!allow_extra && actual_fields != fields) {
        return None;
    }
    assert(actual_fields as int == declared_fields(data@));
    if first_offset > len {
        return None;
    }
    let mut offsets: Vec<usize> = Vec::new();
    let mut index: usize = 0;
    while index < actual_fields
        invariant
            len == data@.len(),
            total_size == len,
            actual_fields as int == declared_fields(data@),
            first_offset == 4 + 4 * actual_fields,
            first_offset <= len,
            index <= actual_fields,
            offsets@.len() == index,
            forall|i: int| 0 <= i < index ==> offsets@[i] as int == #[trigger] header_offsets(data@, actual_fields as nat)[i],
        decreases actual_fields - index,
    {
        let v = le_u32_at(data, 4 + index * 4) as usize;
        offsets.push(v);
        index = index + 1;
    }
    offsets.push(total_size);
    assert(offsets_match(offsets@, data@, actual_fields as nat));
    let mut i: usize = 1;
    while i < offsets.len()
        invariant
            1 <= i <= offsets@.len(),
            offsets@.len() == actual_fields + 1,
            actual_fields as int == declared_fields(data@),
            total_size == len,
            len == data@.len(),
            offsets_match(offsets@, data@, actual_fields as nat),
            forall|j: int| 1 <= j < i ==> #[trigger] adjacent_ok(header_offsets(data@, actual_fields as nat), j, len as int),
        decreases offsets@.len() - i,
    {
        if offsets[i] < offsets[i - 1] || offsets[i] > total_size {
            assert(!adjacent_ok(header_offsets(data@, actual_fields as nat), i as int, len as int));
            assert(declared_fields(data@) as nat == actual_fields as nat);
            assert(!offsets_monotone(header_offsets(data@, declared_fields(data@) as nat), len as int));
            return None;
        }
        i = i + 1;
    }
    Some(offsets)
}

/// The little-endian `u32` at `start`, `None` when fewer than four bytes are left.
pub fn u32_at(data: &[u8], start: usize) -> (r: Option<u32>)
    ensures
        r is Some <==> start + 4 <= data@.len(),
        r matches Some(v) ==> v as nat == le_at(data@, start as int, 4),
{
    if start > data.len() || data.len() - start < 4 {
        None
    } else {
        Some(le_u32_at(data, start))
    }
}

/// The one byte `data[start..end]`, `None` unless the range is one byte inside `data`.
pub fn byte_at_range(data: &[u8], start: usize, end: usize) -> (r: Option<u8>)
    ensures
        r is Some <==> (end == start + 1 && end <= data@.len()),
        r matches Some(b) ==> b == data@[start as int],
{
    if start >= data.len() || end != start + 1 {
        None
    } else {
        Some(data[start])
    }
}

/// The little-endian `u128` in `data[start..end]`, `None` unless the range is 16 bytes inside
/// `data`.
pub fn u128_at_range(data: &[u8], start: usize, end: usize) -> (r: Option<u128>)
    ensures
        r is Some <==> (end == start + 16 && end <= data@.len()),
        r matches Some(v) ==> v as nat == le_at(data@, start as int, 16),
{
    if start > data.len() || data.len() - start < 16 || end != start + 16 {
        None
    } else {
        Some(le_u128_at(data, start))
    }
}

/// The 32 bytes `data[start..end]`, `None` unless the range is 32 bytes inside `data`.
pub fn byte32_at_range(data: &[u8], start: usize, end: usize) -> (r: Option<[u8; 32]>)
    ensures
        r is Some <==> (end == start + 32 && end <= data@.len()),
        r matches Some(v) ==> v@ == data@.subrange(start as int, start + 32),
{
    if start > data.len() || data.len() - start < 32 || end != start + 32 {
        None
    } else {
        Some(copy_byte32(data, start))
    }
}

/// Offsets of a well-formed table stay inside the data and in order.
pub proof fn lemma_offsets_ordered(d: Seq<u8>, n: nat)
    requires
        n >= 1,
        offsets_monotone(header_offsets(d, n), d.len() as int),
    ensures
        forall|i: int, j: int|
            #![trigger header_offsets(d, n)[i], header_offsets(d, n)[j]]
            0 <= i <= j <= n ==> header_offsets(d, n)[i] <= header_offsets(d, n)[j] <= d.len(),
{
    let o = header_offsets(d, n);
    assert forall|i: int, j: int| #![trigger o[i], o[j]] 0 <= i <= j <= n implies o[i] <= o[j] <= d.len() by {
        lemma_offsets_step(d, n, i, j);
    }
}

proof fn lemma_offsets_step(d: Seq<u8>, n: nat, i: int, j: int)
    requires
        n >= 1,
        0 <= i <= j <= n,
        offsets_monotone(header_offsets(d, n), d.len() as int),
    ensures
        header_offsets(d, n)[i] <= header_offsets(d, n)[j] <= d.len(),
    decreases j - i,
{
    let o = header_offsets(d, n);
    if i == j {
        if j >= 1 {
            assert(adjacent_ok(o, j, d.len() as int));
        } else {
            assert(adjacent_ok(o, 1, d.len() as int));
        }
    } else {
        lemma_offsets_step(d, n, i + 1, j);
        assert(adjacent_ok(o, i + 1, d.len() as int));
    }
}

} // verus!
