//! Text out of bytes: UTF-8 through the standard library, ASCII and decimal
//! numbers proved here.

use vstd::prelude::*;
use vstd::utf8::*;

verus! {

/// The characters that the ASCII bytes `bytes` stand for.
pub open spec fn ascii_text(bytes: Seq<u8>) -> Seq<char> {
    Seq::new(bytes.len(), |i: int| bytes[i] as char)
}

/// Every byte is below 128.
pub open spec fn is_ascii_bytes(bytes: Seq<u8>) -> bool {
    forall|i: int| 0 <= i < bytes.len() ==> bytes[i] < 128
}

/// The decimal digits of `n`, most significant first, without leading zeros.
pub open spec fn decimal_text(n: nat) -> Seq<char>
    decreases n,
{
    if n < 10 {
        seq![digit_char(n)]
    } else {
        decimal_text(n / 10).push(digit_char(n % 10))
    }
}

/// The character of the digit `d`, for `d` below ten.
pub open spec fn digit_char(d: nat) -> char {
    (48 + d) as u8 as char
}

/// ASCII bytes are UTF-8, and decode to one character for each byte.
pub proof fn lemma_ascii_is_utf8(bytes: Seq<u8>)
    requires
        is_ascii_bytes(bytes),
    ensures
        valid_utf8(bytes),
        decode_utf8(bytes) == ascii_text(bytes),
{
    let chars = ascii_text(bytes);
    is_ascii_chars_encode_utf8(chars);
    assert(encode_utf8(chars) =~= bytes);
    encode_utf8_valid_utf8(chars);
    encode_utf8_decode_utf8(chars);
}

/// `String::from_utf8` of the standard library. It gives a string when the
/// bytes are valid UTF-8 and only then, and the string's UTF-8 encoding is
/// the bytes that were given.
#[verifier::external_body]
pub(crate) fn string_from_utf8(bytes: Vec<u8>) -> (r: Option<String>)
    ensures
        r is Some <==> valid_utf8(bytes@),
        r matches Some(s) ==> encode_utf8(s@) == bytes@,
{
    match String::from_utf8(bytes) {
        Ok(s) => Some(s),
        Err(_) => None,
    }
}

/// The text that `bytes` encode in UTF-8, if they encode any.
pub fn utf8_text(bytes: Vec<u8>) -> (r: Option<String>)
    ensures
        r is Some <==> valid_utf8(bytes@),
        r matches Some(s) ==> s@ == decode_utf8(bytes@),
{
    let r = string_from_utf8(bytes);
    proof {
        if r is Some {
            encode_utf8_decode_utf8(r->0@);
        }
    }
    r
}

/// The text of ASCII bytes.
pub(crate) fn ascii_string(bytes: &[u8]) -> (r: String)
    requires
        is_ascii_bytes(bytes@),
    ensures
        r@ == ascii_text(bytes@),
{
    proof {
        lemma_ascii_is_utf8(bytes@);
    }
    match utf8_text(vstd::slice::slice_to_vec(bytes)) {
        Some(s) => s,
        None => String::new(),
    }
}

/// `n` in decimal digits.
pub fn decimal_string(n: u64) -> (r: String)
    ensures
        r@ == decimal_text(n as nat),
{
    let mut rev: Vec<u8> = Vec::new();
    let mut rest: u64 = n;
    while rest >= 10
        invariant
            forall|i: int| 0 <= i < rev.len() ==> 48 <= #[trigger] rev[i] < 58,
            decimal_text(n as nat) == decimal_text(rest as nat) + ascii_text(rev@.reverse()),
        decreases rest,
    {
        let d: u8 = (rest % 10) as u8;
        let ghost before = rev@;
        rev.push(48 + d);
        proof {
            assert(decimal_text(rest as nat) == decimal_text((rest / 10) as nat).push(
                digit_char((rest % 10) as nat),
            ));
            assert(decimal_text(rest as nat) + ascii_text(before.reverse()) =~= decimal_text(
                (rest / 10) as nat,
            ) + ascii_text(rev@.reverse()));
        }
        rest = rest / 10;
    }
    rev.push(48 + (rest as u8));
    let mut digits: Vec<u8> = Vec::new();
    let mut k: usize = rev.len();
    while k > 0
        invariant
            k <= rev.len(),
            digits@ == rev@.reverse().subrange(0, rev.len() - k),
        decreases k,
    {
        k = k - 1;
        digits.push(rev[k]);
    }
    proof {
        let last: int = rev.len() - 1;
        assert(ascii_text(digits@) =~= decimal_text(rest as nat) + ascii_text(
            rev@.subrange(0, last).reverse(),
        ));
        assert(is_ascii_bytes(digits@));
    }
    ascii_string(digits.as_slice())
}

} // verus!
