//! Text: bytes as UTF-8, and integers in decimal.

use vstd::prelude::*;
use vstd::utf8::{
    decode_utf8, encode_utf8, encode_utf8_decode_utf8, encode_utf8_valid_utf8, is_ascii_chars,
    is_ascii_chars_encode_utf8, valid_utf8,
};

verus! {

/// `String::from_utf8` of std accepts exactly the byte sequences that are
/// valid UTF-8, and the string it returns holds the characters that those
/// bytes encode.
pub assume_specification[ String::from_utf8 ](vec: Vec<u8>) -> (r: Result<
    String,
    std::string::FromUtf8Error,
>)
    ensures
        r is Ok <==> valid_utf8(vec@),
        r matches Ok(s) ==> s@ == decode_utf8(vec@),
;

/// The character of the decimal digit `d`.
pub open spec fn digit(d: int) -> char {
    (48 + d) as u8 as char
}

/// The decimal digits of `n`, most significant first, without leading zeros.
pub open spec fn decimal_digits(n: nat) -> Seq<char>
    decreases n,
{
    if n < 10 {
        seq![digit(n as int)]
    } else {
        decimal_digits(n / 10).push(digit((n % 10) as int))
    }
}

/// The decimal text of `i`, with a minus sign in front when it is negative.
pub open spec fn decimal(i: int) -> Seq<char> {
    if i < 0 {
        seq!['-'] + decimal_digits((-i) as nat)
    } else {
        decimal_digits(i as nat)
    }
}

/// The characters `cs` as one byte each.
pub open spec fn ascii_bytes(cs: Seq<char>) -> Seq<u8> {
    Seq::new(cs.len(), |i: int| cs[i] as u8)
}

/// Decimal digits are ASCII characters.
proof fn lemma_decimal_digits_ascii(n: nat)
    ensures
        is_ascii_chars(decimal_digits(n)),
    decreases n,
{
    if n >= 10 {
        lemma_decimal_digits_ascii(n / 10);
    }
}

/// Text made of ASCII characters is what its bytes decode to.
proof fn lemma_ascii_bytes_decode(cs: Seq<char>)
    requires
        is_ascii_chars(cs),
    ensures
        valid_utf8(ascii_bytes(cs)),
        decode_utf8(ascii_bytes(cs)) == cs,
{
    is_ascii_chars_encode_utf8(cs);
    assert(ascii_bytes(cs) =~= encode_utf8(cs));
    encode_utf8_valid_utf8(cs);
    encode_utf8_decode_utf8(cs);
}

/// Appends the decimal digits of `n`, one byte each.
fn push_digits(out: &mut Vec<u8>, n: u64)
    ensures
        final(out)@ == old(out)@ + ascii_bytes(decimal_digits(n as nat)),
    decreases n,
{
    if n >= 10 {
        push_digits(out, n / 10);
    }
    let d: u8 = (n % 10) as u8;
    out.push(48 + d);
}

/// The decimal text of `i`.
pub fn integer_to_string(i: i64) -> (s: String)
    ensures
        s@ == decimal(i as int),
{
    let mut bytes: Vec<u8> = Vec::new();
    let magnitude: u64 = if i < 0 {
        bytes.push(45);
        ((-(i + 1)) as u64) + 1
    } else {
        i as u64
    };
    push_digits(&mut bytes, magnitude);
    proof {
        lemma_decimal_digits_ascii(magnitude as nat);
        assert(bytes@ =~= ascii_bytes(decimal(i as int)));
        lemma_ascii_bytes_decode(decimal(i as int));
    }
    String::from_utf8(bytes).unwrap()
}

} // verus!
