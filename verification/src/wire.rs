//! Fixed-width big-endian integers, as the container stores its two length
//! fields.

use vstd::prelude::*;

verus! {

/// The integer that eight bytes denote when read most significant byte first.
#[verifier::opaque]
pub open spec fn be64_value(b: Seq<u8>) -> int
    recommends
        b.len() == 8,
{
    b[0] * 0x100_0000_0000_0000 + b[1] * 0x1_0000_0000_0000 + b[2] * 0x100_0000_0000 + b[3]
        * 0x1_0000_0000 + b[4] * 0x100_0000 + b[5] * 0x1_0000 + b[6] * 0x100 + b[7]
}

/// The eight bytes of `x`, most significant byte first.
#[verifier::opaque]
pub open spec fn be64(x: u64) -> Seq<u8> {
    seq![
        (x / 0x100_0000_0000_0000) as u8,
        (x / 0x1_0000_0000_0000 % 0x100) as u8,
        (x / 0x100_0000_0000 % 0x100) as u8,
        (x / 0x1_0000_0000 % 0x100) as u8,
        (x / 0x100_0000 % 0x100) as u8,
        (x / 0x1_0000 % 0x100) as u8,
        (x / 0x100 % 0x100) as u8,
        (x % 0x100) as u8,
    ]
}

/// Decoding undoes encoding.
pub proof fn lemma_be64_value_of_be64(x: u64)
    ensures
        be64(x).len() == 8,
        be64_value(be64(x)) == x,
{
    reveal(be64);
    reveal(be64_value);
    let q1 = x / 0x100;
    let q2 = q1 / 0x100;
    let q3 = q2 / 0x100;
    let q4 = q3 / 0x100;
    let q5 = q4 / 0x100;
    let q6 = q5 / 0x100;
    let q7 = q6 / 0x100;
    assert(q2 == x / 0x1_0000);
    assert(q3 == x / 0x100_0000);
    assert(q4 == x / 0x1_0000_0000);
    assert(q5 == x / 0x100_0000_0000);
    assert(q6 == x / 0x1_0000_0000_0000);
    assert(q7 == x / 0x100_0000_0000_0000);
    assert(q7 < 0x100);
}

/// Encoding undoes decoding: eight bytes are the encoding of the integer they
/// denote, which always fits in 64 bits.
pub proof fn lemma_be64_of_be64_value(b: Seq<u8>)
    requires
        b.len() == 8,
    ensures
        0 <= be64_value(b) <= u64::MAX,
        be64(be64_value(b) as u64) == b,
{
    reveal(be64);
    reveal(be64_value);
    let v7 = b[0] as int;
    let v6 = v7 * 0x100 + b[1];
    let v5 = v6 * 0x100 + b[2];
    let v4 = v5 * 0x100 + b[3];
    let v3 = v4 * 0x100 + b[4];
    let v2 = v3 * 0x100 + b[5];
    let v1 = v2 * 0x100 + b[6];
    let v0 = v1 * 0x100 + b[7];
    assert(v0 == be64_value(b));
    let x = v0 as u64;
    assert(x / 0x100 == v1 && x % 0x100 == b[7]);
    assert(v1 / 0x100 == v2 && v1 % 0x100 == b[6]);
    assert(v2 / 0x100 == v3 && v2 % 0x100 == b[5]);
    assert(v3 / 0x100 == v4 && v3 % 0x100 == b[4]);
    assert(v4 / 0x100 == v5 && v4 % 0x100 == b[3]);
    assert(v5 / 0x100 == v6 && v5 % 0x100 == b[2]);
    assert(v6 / 0x100 == v7 && v6 % 0x100 == b[1]);
    assert(x / 0x1_0000 == v2);
    assert(x / 0x100_0000 == v3);
    assert(x / 0x1_0000_0000 == v4);
    assert(x / 0x100_0000_0000 == v5);
    assert(x / 0x1_0000_0000_0000 == v6);
    assert(x / 0x100_0000_0000_0000 == v7);
    assert(be64(x) =~= b);
}

/// Encodes `x` as eight bytes, most significant byte first.
pub fn encode_be64(x: u64) -> (out: [u8; 8])
    ensures
        out@ == be64(x),
{
    let out: [u8; 8] = [
        (x / 0x100_0000_0000_0000) as u8,
        (x / 0x1_0000_0000_0000 % 0x100) as u8,
        (x / 0x100_0000_0000 % 0x100) as u8,
        (x / 0x1_0000_0000 % 0x100) as u8,
        (x / 0x100_0000 % 0x100) as u8,
        (x / 0x1_0000 % 0x100) as u8,
        (x / 0x100 % 0x100) as u8,
        (x % 0x100) as u8,
    ];
    proof {
        reveal(be64);
        assert(out@ =~= be64(x));
    }
    out
}

/// Reads the eight bytes of `bytes` that start at `at` as a big-endian
/// integer.
pub fn decode_be64(bytes: &[u8], at: usize) -> (x: u64)
    requires
        at + 8 <= bytes@.len(),
    ensures
        x == be64_value(bytes@.subrange(at as int, at + 8)),
{
    proof {
        reveal(be64_value);
    }
    let b0: u64 = bytes[at] as u64;
    let b1: u64 = bytes[at + 1] as u64;
    let b2: u64 = bytes[at + 2] as u64;
    let b3: u64 = bytes[at + 3] as u64;
    let b4: u64 = bytes[at + 4] as u64;
    let b5: u64 = bytes[at + 5] as u64;
    let b6: u64 = bytes[at + 6] as u64;
    let b7: u64 = bytes[at + 7] as u64;
    b0 * 0x100_0000_0000_0000 + b1 * 0x1_0000_0000_0000 + b2 * 0x100_0000_0000 + b3
        * 0x1_0000_0000 + b4 * 0x100_0000 + b5 * 0x1_0000 + b6 * 0x100 + b7
}

} // verus!
