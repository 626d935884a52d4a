//! 32-byte keys (script hashes, lock hashes, shard bounds): their order and successor.
use vstd::prelude::*;

verus! {

/// `a` comes strictly before `b` in lexicographic byte order.
pub open spec fn lex_lt(a: Seq<u8>, b: Seq<u8>) -> bool {
    exists|i: int|
        0 <= i < a.len() && i < b.len() && a.subrange(0, i) == b.subrange(0, i) && #[trigger] a[i]
            < b[i]
}

/// `a` comes at or before `b` in lexicographic byte order.
pub open spec fn lex_le(a: Seq<u8>, b: Seq<u8>) -> bool {
    lex_lt(a, b) || a == b
}

/// The 32-byte string of zeros, the least key.
pub open spec fn zero32() -> Seq<u8> {
    Seq::new(32, |i: int| 0u8)
}

/// The 32-byte string of `0xff`, the greatest key.
pub open spec fn max32() -> Seq<u8> {
    Seq::new(32, |i: int| 0xffu8)
}

/// The big-endian successor of a byte string of fixed width, `None` when every byte is `0xff`.
pub open spec fn spec_increment(v: Seq<u8>) -> Option<Seq<u8>>
    decreases v.len(),
{
    if v.len() == 0 {
        None
    } else if v.last() == 0xff {
        match spec_increment(v.drop_last()) {
            Some(p) => Some(p.push(0u8)),
            None => None,
        }
    } else {
        Some(v.drop_last().push((v.last() + 1) as u8))
    }
}

/// Key `a` comes strictly before key `b`: the lexicographic order, kept folded so that proofs
/// quantifying over many keys unfold it only where they need it.
#[verifier::opaque]
pub open spec fn key_lt(a: Seq<u8>, b: Seq<u8>) -> bool {
    lex_lt(a, b)
}

/// Whether key `a` comes strictly before key `b`.
pub fn key_before(a: &[u8; 32], b: &[u8; 32]) -> (r: bool)
    ensures
        r == key_lt(a@, b@),
{
    reveal(key_lt);
    byte32_lt(a, b)
}

/// Lexicographic `a < b` on two keys.
pub fn byte32_lt(a: &[u8; 32], b: &[u8; 32]) -> (r: bool)
    ensures
        r == lex_lt(a@, b@),
{
    let mut i: usize = 0;
    while i < 32
        invariant
            i <= 32,
            a@.len() == 32,
            b@.len() == 32,
            a@.subrange(0, i as int) == b@.subrange(0, i as int),
        decreases 32 - i,
    {
        if a[i] != b[i] {
            if a[i] < b[i] {
                assert(a@[i as int] < b@[i as int]);
                return true;
            } else {
                assert forall|k: int|
                    0 <= k < a@.len() && k < b@.len() && a@.subrange(0, k) == b@.subrange(0, k)
                    implies !(#[trigger] a@[k] < b@[k]) by {
                    if k < i {
                        assert(a@.subrange(0, i as int)[k] == b@.subrange(0, i as int)[k]);
                    } else if k > i {
                        assert(a@.subrange(0, k)[i as int] == b@.subrange(0, k)[i as int]);
                    }
                }
                return false;
            }
        }
        assert(a@.subrange(0, i + 1) =~= a@.subrange(0, i as int).push(a@[i as int]));
        assert(b@.subrange(0, i + 1) =~= b@.subrange(0, i as int).push(b@[i as int]));
        i = i + 1;
    }
    assert(a@ =~= a@.subrange(0, 32));
    assert(b@ =~= b@.subrange(0, 32));
    assert forall|k: int|
        0 <= k < a@.len() && k < b@.len() && a@.subrange(0, k) == b@.subrange(0, k) implies !(
        #[trigger] a@[k] < b@[k]) by {
        assert(a@[k] == b@[k]);
    }
    false
}

/// Lexicographic `a <= b` on two keys.
pub fn byte32_le(a: &[u8; 32], b: &[u8; 32]) -> (r: bool)
    ensures
        r == lex_le(a@, b@),
{
    if byte32_lt(a, b) {
        true
    } else {
        byte32_eq(a, b)
    }
}

/// Whether two keys are equal.
pub fn byte32_eq(a: &[u8; 32], b: &[u8; 32]) -> (r: bool)
    ensures
        r == (a@ == b@),
{
    let mut i: usize = 0;
    while i < 32
        invariant
            i <= 32,
            a@.len() == 32,
            b@.len() == 32,
            forall|j: int| 0 <= j < i ==> a@[j] == b@[j],
        decreases 32 - i,
    {
        if a[i] != b[i] {
            return false;
        }
        i = i + 1;
    }
    assert(a@ =~= b@);
    true
}

/// Whether a key is all zeros.
pub fn is_zero32(a: &[u8; 32]) -> (r: bool)
    ensures
        r == (a@ == zero32()),
{
    let z = [0u8; 32];
    assert(z@ =~= zero32());
    byte32_eq(a, &z)
}

/// Whether a key is all `0xff`.
pub fn is_max32(a: &[u8; 32]) -> (r: bool)
    ensures
        r == (a@ == max32()),
{
    let m = [0xffu8; 32];
    assert(m@ =~= max32());
    byte32_eq(a, &m)
}

/// `a <= b` and `b < a` exclude each other.
pub proof fn lemma_lex_le_not_lt(a: Seq<u8>, b: Seq<u8>)
    requires
        a.len() == b.len(),
        lex_le(a, b),
    ensures
        !lex_lt(b, a),
{
    if lex_lt(b, a) {
        let i = choose|i: int| 0 <= i < b.len() && i < a.len() && b.subrange(0, i) == a.subrange(0, i) && #[trigger] b[i] < a[i];
        if lex_lt(a, b) {
            let j = choose|j: int| 0 <= j < a.len() && j < b.len() && a.subrange(0, j) == b.subrange(0, j) && #[trigger] a[j] < b[j];
            if i < j {
                assert(a.subrange(0, j)[i] == b.subrange(0, j)[i]);
            } else if j < i {
                assert(b.subrange(0, i)[j] == a.subrange(0, i)[j]);
            }
        } else {
            assert(a[i] == b[i]);
        }
    }
}

/// Two keys of one width are ordered one way or the other: not `a <= b` means `b < a`.
pub proof fn lemma_lex_total(a: Seq<u8>, b: Seq<u8>)
    requires
        a.len() == b.len(),
        !lex_le(a, b),
    ensures
        lex_lt(b, a),
{
    let n = a.len();
    assert(exists|k: int| 0 <= k < n && a[k] != b[k]) by {
        if forall|k: int| 0 <= k < n ==> a[k] == b[k] {
            assert(a =~= b);
        }
    }
    let k = choose|k: int| 0 <= k < n && a[k] != b[k];
    lemma_first_difference(a, b, k);
}

pub proof fn lemma_first_difference(a: Seq<u8>, b: Seq<u8>, k: int)
    requires
        a.len() == b.len(),
        0 <= k < a.len(),
        a[k] != b[k],
        !lex_lt(a, b),
    ensures
        lex_lt(b, a),
    decreases k,
{
    if exists|j: int| 0 <= j < k && a[j] != b[j] {
        let j = choose|j: int| 0 <= j < k && a[j] != b[j];
        lemma_first_difference(a, b, j);
    } else {
        assert(a.subrange(0, k) =~= b.subrange(0, k));
        if a[k] < b[k] {
            assert(lex_lt(a, b));
        }
        assert(b[k] < a[k]);
        assert(lex_lt(b, a));
    }
}

/// Strict order on keys of one width is transitive.
pub proof fn lemma_lex_lt_trans(a: Seq<u8>, b: Seq<u8>, c: Seq<u8>)
    requires
        a.len() == b.len(),
        b.len() == c.len(),
        lex_lt(a, b),
        lex_lt(b, c),
    ensures
        lex_lt(a, c),
{
    let i = choose|i: int| 0 <= i < a.len() && i < b.len() && a.subrange(0, i) == b.subrange(0, i) && #[trigger] a[i] < b[i];
    let j = choose|j: int| 0 <= j < b.len() && j < c.len() && b.subrange(0, j) == c.subrange(0, j) && #[trigger] b[j] < c[j];
    if i < j {
        assert(b.subrange(0, j)[i] == c.subrange(0, j)[i]);
        assert(a.subrange(0, i) =~= c.subrange(0, i)) by {
            assert forall|k: int| 0 <= k < i implies a.subrange(0, i)[k] == c.subrange(0, i)[k] by {
                assert(a.subrange(0, i)[k] == b.subrange(0, i)[k]);
                assert(b.subrange(0, j)[k] == c.subrange(0, j)[k]);
            }
        }
        assert(a[i] < c[i]);
    } else if j < i {
        assert(a.subrange(0, i)[j] == b.subrange(0, i)[j]);
        assert(a.subrange(0, j) =~= c.subrange(0, j)) by {
            assert forall|k: int| 0 <= k < j implies a.subrange(0, j)[k] == c.subrange(0, j)[k] by {
                assert(a.subrange(0, i)[k] == b.subrange(0, i)[k]);
                assert(b.subrange(0, j)[k] == c.subrange(0, j)[k]);
            }
        }
        assert(a[j] < c[j]);
    } else {
        assert(a.subrange(0, i) =~= c.subrange(0, i));
        assert(a[i] < c[i]);
    }
}

/// The key order is transitive.
pub proof fn lemma_key_lt_trans(a: Seq<u8>, b: Seq<u8>, c: Seq<u8>)
    requires
        a.len() == b.len(),
        b.len() == c.len(),
        key_lt(a, b),
        key_lt(b, c),
    ensures
        key_lt(a, c),
{
    reveal(key_lt);
    lemma_lex_lt_trans(a, b, c);
}

/// No key comes before itself.
pub proof fn lemma_key_lt_irrefl(a: Seq<u8>)
    ensures
        !key_lt(a, a),
{
    reveal(key_lt);
    lemma_lex_le_not_lt(a, a);
}

/// Of two keys of one width, one comes before the other or they are equal.
pub proof fn lemma_key_total(a: Seq<u8>, b: Seq<u8>)
    requires
        a.len() == b.len(),
    ensures
        a == b || key_lt(a, b) || key_lt(b, a),
{
    reveal(key_lt);
    if a != b && !lex_lt(a, b) {
        lemma_lex_total(a, b);
    }
}

/// A key that comes before another does not also come after it.
pub proof fn lemma_key_lt_asym(a: Seq<u8>, b: Seq<u8>)
    requires
        a.len() == b.len(),
        key_lt(a, b),
    ensures
        !key_lt(b, a),
{
    reveal(key_lt);
    lemma_lex_le_not_lt(a, b);
}

/// The increment of `v` once all bytes after `i` are `0xff` and `v[i]` is not.
pub proof fn lemma_increment_at(v: Seq<u8>, i: int)
    requires
        0 <= i < v.len(),
        v[i] != 0xff,
        forall|j: int| i < j < v.len() ==> v[j] == 0xff,
    ensures
        spec_increment(v) == Some(
            v.subrange(0, i).push((v[i] + 1) as u8) + Seq::new((v.len() - i - 1) as nat, |k: int| 0u8),
        ),
    decreases v.len(),
{
    if i == v.len() - 1 {
        assert(v.drop_last() =~= v.subrange(0, i));
        assert(v.subrange(0, i).push((v[i] + 1) as u8) + Seq::new(0, |k: int| 0u8) =~= v.subrange(
            0,
            i,
        ).push((v[i] + 1) as u8));
    } else {
        let w = v.drop_last();
        lemma_increment_at(w, i);
        assert(w.subrange(0, i) =~= v.subrange(0, i));
        assert(v.subrange(0, i).push((v[i] + 1) as u8) + Seq::new((w.len() - i - 1) as nat, |k: int| 0u8)
            == (v.subrange(0, i).push((v[i] + 1) as u8) + Seq::new((w.len() - i - 1) as nat, |k: int| 0u8)));
        assert((v.subrange(0, i).push((v[i] + 1) as u8) + Seq::new(
            (w.len() - i - 1) as nat,
            |k: int| 0u8,
        )).push(0u8) =~= v.subrange(0, i).push((v[i] + 1) as u8) + Seq::new(
            (v.len() - i - 1) as nat,
            |k: int| 0u8,
        ));
    }
}

/// A byte string has no successor exactly when every byte is `0xff`.
pub proof fn lemma_increment_none(v: Seq<u8>)
    ensures
        spec_increment(v) is None <==> (forall|j: int| 0 <= j < v.len() ==> v[j] == 0xff),
    decreases v.len(),
{
    if v.len() > 0 {
        lemma_increment_none(v.drop_last());
        if v.last() == 0xff {
            if spec_increment(v.drop_last()) is None {
                assert forall|j: int| 0 <= j < v.len() implies v[j] == 0xff by {
                    if j < v.len() - 1 {
                        assert(v.drop_last()[j] == v[j]);
                    }
                }
            } else {
                let j = choose|j: int| 0 <= j < v.drop_last().len() && v.drop_last()[j] != 0xff;
                assert(v[j] != 0xff);
            }
        } else {
            assert(v[v.len() - 1] != 0xff);
        }
    }
}

/// For a 32-byte key, having no successor means being the greatest key.
pub proof fn lemma_increment_none_max(v: Seq<u8>)
    requires
        v.len() == 32,
    ensures
        spec_increment(v) is None <==> v == max32(),
{
    lemma_increment_none(v);
    if spec_increment(v) is None {
        assert(v =~= max32());
    }
}

/// The successor of a key keeps its width.
pub proof fn lemma_increment_len(v: Seq<u8>)
    ensures
        spec_increment(v) matches Some(n) ==> n.len() == v.len(),
    decreases v.len(),
{
    if v.len() > 0 {
        lemma_increment_len(v.drop_last());
    }
}

/// The big-endian successor of a key, `None` when the key is all `0xff`.
pub fn increment_byte32(value: &[u8; 32]) -> (r: Option<[u8; 32]>)
    ensures
        match r {
            Some(n) => spec_increment(value@) == Some(n@),
            None => spec_increment(value@) is None,
        },
        r is None <==> value@ == max32(),
{
    proof {
        lemma_increment_none_max(value@);
    }
    let mut next = *value;
    let mut i: usize = 32;
    while i > 0
        invariant
            i <= 32,
            value@.len() == 32,
            next@.len() == 32,
            forall|j: int| 0 <= j < i ==> next@[j] == value@[j],
            forall|j: int| i <= j < 32 ==> next@[j] == 0 && value@[j] == 0xff,
        decreases i,
    {
        i = i - 1;
        if next[i] == 0xff {
            next[i] = 0;
        } else {
            next[i] = next[i] + 1;
            proof {
                lemma_increment_at(value@, i as int);
                assert(next@ =~= value@.subrange(0, i as int).push((value@[i as int] + 1) as u8)
                    + Seq::new((value@.len() - i - 1) as nat, |k: int| 0u8));
            }
            return Some(next);
        }
    }
    proof {
        lemma_increment_none(value@);
    }
    None
}

/// The all-zero key comes at or before every key of its width.
pub proof fn lemma_zero_least(y: Seq<u8>)
    requires
        y.len() == 32,
    ensures
        lex_le(zero32(), y),
{
    if !lex_le(zero32(), y) {
        lemma_lex_total(zero32(), y);
        let i = choose|i: int| 0 <= i < y.len() && i < zero32().len() && y.subrange(0, i) == zero32().subrange(0, i) && #[trigger] y[i] < zero32()[i];
        assert(zero32()[i] == 0);
    }
}

/// Every key of its width comes at or before the all-`0xff` key.
pub proof fn lemma_max_greatest(y: Seq<u8>)
    requires
        y.len() == 32,
    ensures
        lex_le(y, max32()),
{
    if !lex_le(y, max32()) {
        lemma_lex_total(y, max32());
        let i = choose|i: int| 0 <= i < max32().len() && i < y.len() && max32().subrange(0, i) == y.subrange(0, i) && #[trigger] max32()[i] < y[i];
        assert(max32()[i] == 0xff);
    }
}

/// Appending one byte to each side keeps a strict order decided before the end.
proof fn lemma_lex_lt_push(p: Seq<u8>, q: Seq<u8>, u: u8, v: u8)
    requires
        p.len() == q.len(),
        lex_lt(p, q),
    ensures
        lex_lt(p.push(u), q.push(v)),
{
    let i = choose|i: int| 0 <= i < p.len() && i < q.len() && p.subrange(0, i) == q.subrange(0, i) && #[trigger] p[i] < q[i];
    assert(p.push(u).subrange(0, i) =~= p.subrange(0, i));
    assert(q.push(v).subrange(0, i) =~= q.subrange(0, i));
    assert(p.push(u)[i] == p[i]);
    assert(q.push(v)[i] == q[i]);
}

/// Equal prefixes are ordered by their last bytes.
proof fn lemma_lex_lt_last(p: Seq<u8>, u: u8, v: u8)
    requires
        u < v,
    ensures
        lex_lt(p.push(u), p.push(v)),
{
    let n = p.len() as int;
    assert(p.push(u).subrange(0, n) =~= p);
    assert(p.push(v).subrange(0, n) =~= p);
    assert(p.push(u)[n] == u);
    assert(p.push(v)[n] == v);
}

/// The successor of `a` is the next key after it: it comes at or before every key that `a`
/// comes strictly before.
pub proof fn lemma_increment_successor(a: Seq<u8>, y: Seq<u8>)
    requires
        a.len() == y.len(),
        lex_lt(a, y),
        spec_increment(a) is Some,
    ensures
        lex_le(spec_increment(a).unwrap(), y),
    decreases a.len(),
{
    let n = a.len() as int;
    let i = choose|i: int| 0 <= i < a.len() && i < y.len() && a.subrange(0, i) == y.subrange(0, i) && #[trigger] a[i] < y[i];
    let a0 = a.drop_last();
    let y0 = y.drop_last();
    assert(a =~= a0.push(a.last()));
    assert(y =~= y0.push(y.last()));
    if a.last() != 0xff {
        let b = a0.push((a.last() + 1) as u8);
        assert(spec_increment(a) == Some(b));
        if i < n - 1 {
            assert(a0.subrange(0, i) =~= a.subrange(0, i));
            assert(y0.subrange(0, i) =~= y.subrange(0, i));
            assert(a0[i] == a[i] && y0[i] == y[i]);
            assert(lex_lt(a0, y0));
            lemma_lex_lt_push(a0, y0, (a.last() + 1) as u8, y.last());
        } else {
            assert(a0 =~= a.subrange(0, i));
            assert(y0 =~= y.subrange(0, i));
            if (a.last() + 1) as u8 != y.last() {
                lemma_lex_lt_last(a0, (a.last() + 1) as u8, y.last());
            }
        }
    } else {
        let b0 = spec_increment(a0).unwrap();
        assert(i < n - 1);
        assert(a0.subrange(0, i) =~= a.subrange(0, i));
        assert(y0.subrange(0, i) =~= y.subrange(0, i));
        assert(a0[i] == a[i] && y0[i] == y[i]);
        assert(lex_lt(a0, y0));
        lemma_increment_len(a0);
        lemma_increment_successor(a0, y0);
        assert(spec_increment(a) == Some(b0.push(0u8)));
        if b0 == y0 {
            if y.last() != 0 {
                lemma_lex_lt_last(y0, 0u8, y.last());
            }
        } else {
            lemma_lex_lt_push(b0, y0, 0u8, y.last());
        }
    }
}

/// `a <= b <= c` gives `a <= c`, on keys of one width.
pub proof fn lemma_lex_le_trans(a: Seq<u8>, b: Seq<u8>, c: Seq<u8>)
    requires
        a.len() == b.len() && b.len() == c.len(),
        lex_le(a, b),
        lex_le(b, c),
    ensures
        lex_le(a, c),
{
    if a != b && b != c {
        lemma_lex_lt_trans(a, b, c);
    }
}

/// `a <= b < c` gives `a < c`, on keys of one width.
pub proof fn lemma_lex_le_lt_trans(a: Seq<u8>, b: Seq<u8>, c: Seq<u8>)
    requires
        a.len() == b.len() && b.len() == c.len(),
        lex_le(a, b),
        lex_lt(b, c),
    ensures
        lex_lt(a, c),
{
    if a != b {
        lemma_lex_lt_trans(a, b, c);
    }
}

/// `a < b <= c` gives `a < c`, on keys of one width.
pub proof fn lemma_lex_lt_le_trans(a: Seq<u8>, b: Seq<u8>, c: Seq<u8>)
    requires
        a.len() == b.len() && b.len() == c.len(),
        lex_lt(a, b),
        lex_le(b, c),
    ensures
        lex_lt(a, c),
{
    if b != c {
        lemma_lex_lt_trans(a, b, c);
    }
}

} // verus!
