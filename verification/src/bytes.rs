//! Little-endian integers and fixed-width byte fields read out of raw cell data.
use vstd::prelude::*;

verus! {

/// The number a little-endian byte string denotes.
pub open spec fn le_value(s: Seq<u8>) -> nat
    decreases s.len(),
{
    if s.len() == 0 {
        0
    } else {
        s[0] as nat + 256 * le_value(s.drop_first())
    }
}

/// `256` raised to `n`.
pub open spec fn pow256(n: nat) -> nat
    decreases n,
{
    if n == 0 {
        1
    } else {
        256 * pow256((n - 1) as nat)
    }
}

/// The `n` bytes of `s` that start at `start`, read as a little-endian number.
pub open spec fn le_at(s: Seq<u8>, start: int, n: int) -> nat {
    le_value(s.subrange(start, start + n))
}

pub proof fn lemma_pow256_values()
    ensures
        pow256(4) == 0x1_0000_0000,
        pow256(16) == 0x1_0000_0000_0000_0000_0000_0000_0000_0000,
{
    reveal_with_fuel(pow256, 17);
}

/// Reads the four bytes at `start` as a little-endian `u32`.
pub fn le_u32_at(data: &[u8], start: usize) -> (r: u32)
    requires
        start + 4 <= data@.len(),
    ensures
        r as nat == le_at(data@, start as int, 4),
{
    let len = data.len();
    let mut acc: u32 = 0;
    let mut i: usize = 4;
    proof {
        lemma_pow256_values();
        assert(data@.subrange(start + 4, start + 4) =~= Seq::<u8>::empty());
    }
    while i > 0
        invariant
            i <= 4,
            start + 4 <= data@.len(),
            len == data@.len(),
            acc as nat == le_value(data@.subrange(start + i, start + 4)),
            (acc as nat) < pow256((4 - i) as nat),
            pow256(4) == 0x1_0000_0000,
        decreases i,
    {
        let ghost old_i = i;
        i = i - 1;
        let b = data[start + i];
        proof {
            let s = data@.subrange(start + i, start + 4);
            assert(s.drop_first() =~= data@.subrange(start + old_i, start + 4));
            assert(pow256((4 - i) as nat) == 256 * pow256((4 - old_i) as nat));
            lemma_pow256_le((4 - i) as nat, 4);
        }
        acc = b as u32 + 256 * acc;
    }
    acc
}

/// Reads the sixteen bytes at `start` as a little-endian `u128`.
pub fn le_u128_at(data: &[u8], start: usize) -> (r: u128)
    requires
        start + 16 <= data@.len(),
    ensures
        r as nat == le_at(data@, start as int, 16),
{
    let len = data.len();
    let mut acc: u128 = 0;
    let mut i: usize = 16;
    proof {
        lemma_pow256_values();
        assert(data@.subrange(start + 16, start + 16) =~= Seq::<u8>::empty());
    }
    while i > 0
        invariant
            i <= 16,
            start + 16 <= data@.len(),
            len == data@.len(),
            acc as nat == le_value(data@.subrange(start + i, start + 16)),
            (acc as nat) < pow256((16 - i) as nat),
            pow256(16) == 0x1_0000_0000_0000_0000_0000_0000_0000_0000,
        decreases i,
    {
        let ghost old_i = i;
        i = i - 1;
        let b = data[start + i];
        proof {
            let s = data@.subrange(start + i, start + 16);
            assert(s.drop_first() =~= data@.subrange(start + old_i, start + 16));
            assert(pow256((16 - i) as nat) == 256 * pow256((16 - old_i) as nat));
            lemma_pow256_le((16 - i) as nat, 16);
        }
        acc = b as u128 + 256 * acc;
    }
    acc
}

pub proof fn lemma_pow256_le(a: nat, b: nat)
    requires
        a <= b,
    ensures
        pow256(a) <= pow256(b),
    decreases b,
{
    if a < b {
        lemma_pow256_le(a, (b - 1) as nat);
    }
}

/// Copies the 32 bytes at `start` into an array.
pub fn copy_byte32(data: &[u8], start: usize) -> (r: [u8; 32])
    requires
        start + 32 <= data@.len(),
    ensures
        r@ == data@.subrange(start as int, start + 32),
{
    let len = data.len();
    let mut out = [0u8; 32];
    let mut i: usize = 0;
    while i < 32
        invariant
            i <= 32,
            len == data@.len(),
            start + 32 <= data@.len(),
            out@.len() == 32,
            forall|j: int| 0 <= j < i ==> out@[j] == data@[start + j],
        decreases 32 - i,
    {
        out[i] = data[start + i];
        i = i + 1;
    }
    assert(out@ =~= data@.subrange(start as int, start + 32));
    out
}

/// Copies a slice into a fresh vector.
pub fn slice_to_vec(data: &[u8]) -> (r: Vec<u8>)
    ensures
        r@ == data@,
{
    let mut out: Vec<u8> = Vec::new();
    let mut i: usize = 0;
    while i < data.len()
        invariant
            i <= data@.len(),
            out@ == data@.subrange(0, i as int),
        decreases data@.len() - i,
    {
        out.push(data[i]);
        i = i + 1;
        assert(out@ =~= data@.subrange(0, i as int));
    }
    assert(data@.subrange(0, data@.len() as int) =~= data@);
    out
}

/// Copies `data[start..end]` into a fresh vector.
pub fn sub_vec(data: &[u8], start: usize, end: usize) -> (r: Vec<u8>)
    requires
        start <= end <= data@.len(),
    ensures
        r@ == data@.subrange(start as int, end as int),
{
    let mut out: Vec<u8> = Vec::new();
    let mut i: usize = start;
    while i < end
        invariant
            start <= i <= end <= data@.len(),
            out@ == data@.subrange(start as int, i as int),
        decreases end - i,
    {
        out.push(data[i]);
        i = i + 1;
        assert(out@ =~= data@.subrange(start as int, i as int));
    }
    out
}

/// Whether two byte strings hold the same bytes.
pub fn bytes_eq(a: &[u8], b: &[u8]) -> (r: bool)
    ensures
        r == (a@ == b@),
{
    if a.len() != b.len() {
        return false;
    }
    let mut i: usize = 0;
    while i < a.len()
        invariant
            i <= a@.len(),
            a@.len() == b@.len(),
            forall|j: int| 0 <= j < i ==> a@[j] == b@[j],
        decreases a@.len() - i,
    {
        if a[i] != b[i] {
            return false;
        }
        i = i + 1;
    }
    assert(a@ =~= b@);
    true
}

} // verus!
