//! The ASCII text of the arguments a spawned extension receives: small numbers in decimal and
//! argument bytes in lowercase hexadecimal.
use vstd::prelude::*;

verus! {

/// The decimal text of a byte: one digit below 10, two characters otherwise (the first one
/// past `9` once the byte reaches 100).
pub open spec fn decimal_text(v: u8) -> Seq<u8> {
    if v < 10 {
        seq![(48 + v) as u8]
    } else {
        seq![(48 + v / 10) as u8, (48 + v % 10) as u8]
    }
}

/// The lowercase hexadecimal digit of a nibble.
pub open spec fn hex_digit(n: u8) -> u8 {
    if n < 10 {
        (48 + n) as u8
    } else {
        (87 + n) as u8
    }
}

/// The lowercase hexadecimal text of bytes: two digits per byte, high nibble first.
pub open spec fn hex_text(d: Seq<u8>) -> Seq<u8> {
    Seq::new(2 * d.len(), |k: int| if k % 2 == 0 { hex_digit(d[k / 2] / 16) } else { hex_digit(d[k / 2] % 16) })
}

/// The decimal text of a byte.
pub fn decimal_byte(value: u8) -> (r: Vec<u8>)
    ensures
        r@ == decimal_text(value),
{
    let mut s: Vec<u8> = Vec::new();
    if value < 10 {
        s.push(48u8 + value);
    } else {
        let tens = value / 10;
        let ones = value % 10;
        s.push(48u8 + tens);
        s.push(48u8 + ones);
    }
    assert(s@ =~= decimal_text(value));
    s
}

/// The lowercase hexadecimal digit of a nibble.
fn hex_char(n: u8) -> (r: u8)
    requires
        n < 16,
    ensures
        r == hex_digit(n),
{
    if n < 10 {
        48u8 + n
    } else {
        97u8 + (n - 10)
    }
}

/// The lowercase hexadecimal text of bytes.
pub fn hex_encode(data: &[u8]) -> (r: Vec<u8>)
    requires
        data@.len() * 2 <= usize::MAX,
    ensures
        r@ == hex_text(data@),
{
    let mut out: Vec<u8> = Vec::new();
    let mut i: usize = 0;
    while i < data.len()
        invariant
            i <= data@.len(),
            out@.len() == 2 * i,
            forall|k: int| 0 <= k < 2 * i ==> #[trigger] out@[k] == hex_text(data@)[k],
        decreases data@.len() - i,
    {
        let byte = data[i];
        let high = byte >> 4;
        let low = byte & 0x0f;
        assert(high == byte / 16 && low == byte % 16) by (bit_vector)
            requires
                high == byte >> 4,
                low == byte & 0x0f,
        ;
        out.push(hex_char(high));
        out.push(hex_char(low));
        proof {
            assert forall|k: int| 0 <= k < 2 * (i + 1) implies #[trigger] out@[k] == hex_text(data@)[k] by {
                if k == 2 * i {
                    assert(k / 2 == i && k % 2 == 0);
                } else if k == 2 * i + 1 {
                    assert(k / 2 == i && k % 2 == 1);
                }
            }
        }
        i = i + 1;
    }
    assert(out@ =~= hex_text(data@));
    out
}

} // verus!
