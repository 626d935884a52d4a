//! Key ranges `(start, end)`: their order, sorting, and coverage of the whole key domain.
use vstd::prelude::*;
use vstd::relations::{sorted_by, total_ordering};
use crate::byte32::{
    byte32_eq, byte32_lt, increment_byte32, is_max32, is_zero32, lemma_increment_len,
    lemma_increment_successor, lemma_lex_le_not_lt, lemma_lex_lt_trans, lemma_lex_total,
    lemma_max_greatest, lemma_zero_least, lex_le, lex_lt, max32, spec_increment, zero32,
};

verus! {

broadcast use vstd::seq_lib::group_to_multiset_ensures, vstd::array::group_array_axioms;

/// A key range: first key and last key.
pub type KeyRange = ([u8; 32], [u8; 32]);

/// Ranges are ordered by start key, then by end key.
pub open spec fn range_leq(x: KeyRange, y: KeyRange) -> bool {
    lex_lt(x.0@, y.0@) || (x.0@ == y.0@ && lex_le(x.1@, y.1@))
}

/// The order of ranges as a relation.
pub open spec fn range_order() -> spec_fn(KeyRange, KeyRange) -> bool {
    |x: KeyRange, y: KeyRange| range_leq(x, y)
}

/// The order of ranges is total.
pub proof fn lemma_range_order_total()
    ensures
        total_ordering(range_order()),
{
    let leq = range_order();
    assert forall|x: KeyRange| #[trigger] leq(x, x) by {}
    assert forall|x: KeyRange, y: KeyRange| #[trigger] leq(x, y) && #[trigger] leq(y, x) implies x == y by {
        if lex_lt(x.0@, y.0@) {
            lemma_lex_le_not_lt(x.0@, y.0@);
        } else if lex_lt(y.0@, x.0@) {
            lemma_lex_le_not_lt(y.0@, x.0@);
        } else {
            if lex_lt(x.1@, y.1@) {
                lemma_lex_le_not_lt(x.1@, y.1@);
            }
        }
        assert(x.0@ == y.0@);
        assert(x.1@ == y.1@);
        assert(x.0 =~= y.0);
        assert(x.1 =~= y.1);
    }
    assert forall|x: KeyRange, y: KeyRange, z: KeyRange| #[trigger] leq(x, y) && #[trigger] leq(y, z) implies leq(x, z) by {
        if lex_lt(x.0@, y.0@) && lex_lt(y.0@, z.0@) {
            lemma_lex_lt_trans(x.0@, y.0@, z.0@);
        } else if x.0@ == y.0@ && y.0@ == z.0@ {
            if lex_lt(x.1@, y.1@) && lex_lt(y.1@, z.1@) {
                lemma_lex_lt_trans(x.1@, y.1@, z.1@);
            }
        }
    }
    assert forall|x: KeyRange, y: KeyRange| #[trigger] leq(x, y) || #[trigger] leq(y, x) by {
        if !lex_le(x.0@, y.0@) {
            lemma_lex_total(x.0@, y.0@);
        } else if x.0@ == y.0@ && !lex_le(x.1@, y.1@) {
            lemma_lex_total(x.1@, y.1@);
        }
    }
}

/// Whether range `x` sorts strictly before range `y`.
pub fn range_lt(x: &KeyRange, y: &KeyRange) -> (r: bool)
    ensures
        r == !range_leq(*y, *x),
{
    proof {
        lemma_range_order_total();
        assert(range_order()(*x, *y) || range_order()(*y, *x));
    }
    if byte32_lt(&x.0, &y.0) {
        proof {
            lemma_lex_le_not_lt(x.0@, y.0@);
        }
        true
    } else if byte32_eq(&x.0, &y.0) {
        if byte32_lt(&x.1, &y.1) {
            proof {
                lemma_lex_le_not_lt(x.1@, y.1@);
            }
            true
        } else {
            false
        }
    } else {
        proof {
            lemma_lex_total(x.0@, y.0@);
        }
        false
    }
}

/// Sorts ranges by start key, then end key.
pub fn sort_ranges(ranges: Vec<KeyRange>) -> (r: Vec<KeyRange>)
    ensures
        r@ == ranges@.sort_by(range_order()),
{
    let mut out: Vec<KeyRange> = Vec::new();
    let mut i: usize = 0;
    proof {
        lemma_range_order_total();
        assert(ranges@.subrange(0, 0) =~= Seq::<KeyRange>::empty());
    }
    while i < ranges.len()
        invariant
            i <= ranges@.len(),
            total_ordering(range_order()),
            sorted_by(out@, range_order()),
            out@.to_multiset() == ranges@.subrange(0, i as int).to_multiset(),
        decreases ranges@.len() - i,
    {
        let x = ranges[i];
        let mut p: usize = 0;
        let mut stop = false;
        while !stop && p < out.len()
            invariant
                p <= out@.len(),
                forall|k: int| 0 <= k < p ==> range_leq(#[trigger] out@[k], x),
                stop ==> p < out@.len() && !range_leq(out@[p as int], x),
            decreases out@.len() - p + (if stop { 0int } else { 1int }),
        {
            if range_lt(&x, &out[p]) {
                stop = true;
            } else {
                p = p + 1;
            }
        }
        proof {
            if p < out@.len() {
                assert(range_order()(out@[p as int], x) || range_order()(x, out@[p as int]));
            }
        }
        let ghost before = out@;
        proof {
            assert forall|k: int| p <= k < before.len() implies range_leq(x, #[trigger] before[k]) by {
                if p < before.len() {
                    assert(range_leq(x, before[p as int]));
                    assert(range_order()(before[p as int], before[k]));
                    assert(range_order()(x, before[p as int]));
                }
            }
        }
        out.insert(p, x);
        proof {
            assert(ranges@.subrange(0, i + 1) =~= ranges@.subrange(0, i as int).push(x));
            assert forall|a: int, b: int| 0 <= a < b < out@.len() implies #[trigger] range_order()(out@[a], out@[b]) by {
                if a < p && b < p {
                    assert(range_order()(before[a], before[b]));
                } else if a < p && b == p {
                } else if a < p && b > p {
                    assert(range_order()(before[a], before[b - 1]));
                } else if a == p {
                } else {
                    assert(range_order()(before[a - 1], before[b - 1]));
                }
            }
        }
        i = i + 1;
    }
    proof {
        assert(ranges@.subrange(0, ranges@.len() as int) =~= ranges@);
        ranges@.lemma_sort_by_ensures(range_order());
        vstd::seq_lib::lemma_sorted_unique(out@, ranges@.sort_by(range_order()), range_order());
    }
    out
}

/// Sorting forgets the order the ranges came in: two lists holding the same ranges, in any
/// order, sort to the same list, so whether a source's ranges cover the key domain does not
/// depend on the order of its cells.
pub proof fn lemma_sorted_ranges_order_independent(a: Seq<KeyRange>, b: Seq<KeyRange>)
    requires
        a.to_multiset() == b.to_multiset(),
    ensures
        a.sort_by(range_order()) == b.sort_by(range_order()),
{
    lemma_range_order_total();
    a.lemma_sort_by_ensures(range_order());
    b.lemma_sort_by_ensures(range_order());
    vstd::seq_lib::lemma_sorted_unique(a.sort_by(range_order()), b.sort_by(range_order()), range_order());
}

/// The value of a list of ranges: both ends as byte sequences.
pub open spec fn key_ranges(r: Seq<KeyRange>) -> Seq<(Seq<u8>, Seq<u8>)> {
    r.map_values(|x: KeyRange| (x.0@, x.1@))
}

/// Range `i + 1` starts right after range `i` ends.
pub open spec fn range_links(r: Seq<(Seq<u8>, Seq<u8>)>, i: int) -> bool {
    spec_increment(r[i].1) == Some(r[i + 1].0)
}

/// Ranges `0..=k` cover every key without a gap, from the least key to the greatest.
pub open spec fn ranges_cover_at(r: Seq<(Seq<u8>, Seq<u8>)>, k: int) -> bool {
    &&& 0 <= k < r.len()
    &&& r[0].0 == zero32()
    &&& r[k].1 == max32()
    &&& forall|i: int| 0 <= i < k ==> #[trigger] range_links(r, i)
}

/// The ranges, from the first on, cover the whole key domain.
pub open spec fn ranges_cover(r: Seq<(Seq<u8>, Seq<u8>)>) -> bool {
    exists|k: int| ranges_cover_at(r, k)
}

/// Range `i` does not end at the greatest key.
pub open spec fn range_end_not_max(r: Seq<(Seq<u8>, Seq<u8>)>, i: int) -> bool {
    r[i].1 != max32()
}

/// Whether the ranges, from the first on, cover the whole key domain: the first starts at the
/// least key, each next one starts right after the previous one ends, until one ends at the
/// greatest key.
pub fn covers_full_domain(ranges: &[KeyRange]) -> (r: bool)
    ensures
        r == ranges_cover(key_ranges(ranges@)),
{
    let ghost v = key_ranges(ranges@);
    let n = ranges.len();
    if n == 0 || !is_zero32(&ranges[0].0) {
        proof {
            assert forall|k: int| !ranges_cover_at(v, k) by {
                if ranges_cover_at(v, k) {
                    assert(v[0].0 == ranges@[0].0@);
                }
            }
        }
        return false;
    }
    let mut expected_start = [0u8; 32];
    assert(expected_start@ =~= zero32());
    let mut i: usize = 0;
    while i < n
        invariant
            n == ranges@.len(),
            v == key_ranges(ranges@),
            n > 0,
            i <= n,
            v[0].0 == zero32(),
            expected_start@.len() == 32,
            i == 0 ==> expected_start@ == zero32(),
            i > 0 ==> spec_increment(v[i - 1].1) == Some(expected_start@),
            forall|j: int| 0 <= j < i ==> #[trigger] range_end_not_max(v, j),
            forall|j: int| 0 <= j < i - 1 ==> #[trigger] range_links(v, j),
        decreases n - i,
    {
        let start = ranges[i].0;
        assert(v[i as int] == (ranges@[i as int].0@, ranges@[i as int].1@));
        if !byte32_eq(&start, &expected_start) {
            proof {
                assert forall|k: int| !ranges_cover_at(v, k) by {
                    if ranges_cover_at(v, k) {
                        if k < i {
                            assert(range_end_not_max(v, k));
                        } else if i > 0 {
                            assert(range_links(v, i - 1));
                        }
                    }
                }
            }
            return false;
        }
        let end = ranges[i].1;
        match increment_byte32(&end) {
            None => {
                proof {
                    if i > 0 {
                        assert(range_links(v, i - 1));
                    }
                    assert(ranges_cover_at(v, i as int));
                }
                return is_max32(&end);
            },
            Some(next_start) => {
                proof {
                    lemma_increment_len(end@);
                    assert(range_end_not_max(v, i as int));
                    if i > 0 {
                        assert(range_links(v, i - 1));
                    }
                }
                expected_start = next_start;
            },
        }
        i = i + 1;
    }
    proof {
        assert forall|k: int| !ranges_cover_at(v, k) by {
            if ranges_cover_at(v, k) {
                assert(range_end_not_max(v, k));
            }
        }
    }
    false
}

/// Range `i` holds `key`.
pub open spec fn range_holds(r: Seq<(Seq<u8>, Seq<u8>)>, i: int, key: Seq<u8>) -> bool {
    lex_le(r[i].0, key) && lex_le(key, r[i].1)
}

/// From range `j` on, some range up to `k` holds a key that range `j` does not start after.
proof fn lemma_cover_from(r: Seq<(Seq<u8>, Seq<u8>)>, k: int, j: int, key: Seq<u8>)
    requires
        ranges_cover_at(r, k),
        forall|i: int| 0 <= i <= k ==> (#[trigger] r[i]).0.len() == 32 && r[i].1.len() == 32,
        key.len() == 32,
        0 <= j <= k,
        lex_le(r[j].0, key),
    ensures
        exists|i: int| j <= i <= k && range_holds(r, i, key),
    decreases k - j,
{
    if lex_le(key, r[j].1) {
        assert(range_holds(r, j, key));
    } else {
        lemma_lex_total(key, r[j].1);
        if j == k {
            lemma_max_greatest(key);
        } else {
            assert(range_links(r, j));
            lemma_increment_successor(r[j].1, key);
            lemma_cover_from(r, k, j + 1, key);
        }
    }
}

/// Ranges that cover the whole key domain leave no key out: every 32-byte key lies in one of
/// them.
pub proof fn lemma_covering_ranges_hold_every_key(r: Seq<(Seq<u8>, Seq<u8>)>, key: Seq<u8>)
    requires
        ranges_cover(r),
        forall|i: int| 0 <= i < r.len() ==> (#[trigger] r[i]).0.len() == 32 && r[i].1.len() == 32,
        key.len() == 32,
    ensures
        exists|i: int| 0 <= i < r.len() && range_holds(r, i, key),
{
    let k = choose|k: int| ranges_cover_at(r, k);
    lemma_zero_least(key);
    lemma_cover_from(r, k, 0, key);
}

} // verus!
