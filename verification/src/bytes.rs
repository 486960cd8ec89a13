//! Bytes in a buffer: 32-bit numbers in big-endian order, and copying.

use vstd::arithmetic::div_mod::lemma_fundamental_div_mod_converse;
use vstd::prelude::*;

verus! {

/// The four bytes of `x`, most significant first.
pub open spec fn be_bytes(x: u32) -> Seq<u8> {
    seq![
        (x / 0x100_0000) as u8,
        (x / 0x1_0000 % 0x100) as u8,
        (x / 0x100 % 0x100) as u8,
        (x % 0x100) as u8,
    ]
}

/// The number whose big-endian bytes are the first four bytes of `s`.
pub open spec fn be_value(s: Seq<u8>) -> u32
    recommends
        s.len() >= 4,
{
    (s[0] * 0x100_0000 + s[1] * 0x1_0000 + s[2] * 0x100 + s[3]) as u32
}

/// Reading back what was written gives the number.
pub proof fn lemma_be_value_of_bytes(x: u32)
    ensures
        be_bytes(x).len() == 4,
        be_value(be_bytes(x)) == x,
{
}

/// A number below 2^32 written to the base 256 has the digits it was made of.
proof fn lemma_base_256(a: int, b: int, c: int, d: int)
    requires
        0 <= a < 0x100,
        0 <= b < 0x100,
        0 <= c < 0x100,
        0 <= d < 0x100,
    ensures
        ({
            let v = a * 0x100_0000 + b * 0x1_0000 + c * 0x100 + d;
            &&& 0 <= v <= u32::MAX
            &&& v / 0x100_0000 == a
            &&& v / 0x1_0000 % 0x100 == b
            &&& v / 0x100 % 0x100 == c
            &&& v % 0x100 == d
        }),
{
    let v = a * 0x100_0000 + b * 0x1_0000 + c * 0x100 + d;
    lemma_fundamental_div_mod_converse(v, 0x100_0000, a, b * 0x1_0000 + c * 0x100 + d);
    lemma_fundamental_div_mod_converse(v, 0x1_0000, a * 0x100 + b, c * 0x100 + d);
    lemma_fundamental_div_mod_converse(a * 0x100 + b, 0x100, a, b);
    lemma_fundamental_div_mod_converse(v, 0x100, a * 0x1_0000 + b * 0x100 + c, d);
    lemma_fundamental_div_mod_converse(a * 0x1_0000 + b * 0x100 + c, 0x100, a * 0x100 + b, c);
}

/// Writing what was read gives the bytes.
pub proof fn lemma_be_bytes_of_value(s: Seq<u8>)
    requires
        s.len() == 4,
    ensures
        be_bytes(be_value(s)) == s,
{
    lemma_base_256(s[0] as int, s[1] as int, s[2] as int, s[3] as int);
    assert(be_bytes(be_value(s)) =~= s);
}

/// `x` as four bytes, most significant first.
pub fn u32_to_be(x: u32) -> (r: [u8; 4])
    ensures
        r@ == be_bytes(x),
{
    let r: [u8; 4] = [
        (x / 0x100_0000) as u8,
        (x / 0x1_0000 % 0x100) as u8,
        (x / 0x100 % 0x100) as u8,
        (x % 0x100) as u8,
    ];
    assert(r@ =~= be_bytes(x));
    r
}

/// The number that the four bytes of `bytes` from `at` on hold, most
/// significant first.
pub(crate) fn u32_from_be(bytes: &[u8], at: usize) -> (r: u32)
    requires
        at + 4 <= bytes@.len(),
    ensures
        r == be_value(bytes@.subrange(at as int, at + 4)),
{
    let b0: u32 = bytes[at] as u32;
    let b1: u32 = bytes[at + 1] as u32;
    let b2: u32 = bytes[at + 2] as u32;
    let b3: u32 = bytes[at + 3] as u32;
    b0 * 0x100_0000 + b1 * 0x1_0000 + b2 * 0x100 + b3
}

/// Puts the bytes of `more` behind those of `buffer`.
pub fn append_bytes(buffer: &mut Vec<u8>, more: &[u8])
    ensures
        final(buffer)@ == old(buffer)@ + more@,
{
    let mut i: usize = 0;
    while i < more.len()
        invariant
            i <= more@.len(),
            buffer@ == old(buffer)@ + more@.subrange(0, i as int),
        decreases more@.len() - i,
    {
        buffer.push(more[i]);
        i = i + 1;
    }
}

} // verus!
