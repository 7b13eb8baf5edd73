//! Small helpers for turning ASCII bytes into strings and back.

use vstd::prelude::*;
use vstd::utf8::*;
use vstd::string::*;

verus! {

/// The characters that a sequence of ASCII bytes stands for.
pub open spec fn ascii_chars(bytes: Seq<u8>) -> Seq<char> {
    bytes.map_values(|b: u8| b as char)
}

/// Every byte is below 128.
pub open spec fn is_ascii_bytes(bytes: Seq<u8>) -> bool {
    forall|i: int| 0 <= i < bytes.len() ==> #[trigger] bytes[i] < 128
}

pub proof fn lemma_ascii_encode(bytes: Seq<u8>)
    requires
        is_ascii_bytes(bytes),
    ensures
        is_ascii_chars(ascii_chars(bytes)),
        encode_utf8(ascii_chars(bytes)) == bytes,
        valid_utf8(bytes),
        decode_utf8(bytes) == ascii_chars(bytes),
{
    let chars = ascii_chars(bytes);
    assert forall|i: int| 0 <= i < chars.len() implies '\0' <= #[trigger] chars[i] <= '\u{7f}' by {
        assert(bytes[i] < 128);
    }
    is_ascii_chars_encode_utf8(chars);
    assert forall|i: int| 0 <= i < bytes.len() implies encode_utf8(chars)[i] == bytes[i] by {
        assert(chars[i] as u8 == encode_utf8(chars)[i]);
        let b = bytes[i];
        assert(b < 128);
        assert((b as char) as u8 == b);
    }
    assert(encode_utf8(chars) =~= bytes);
    encode_utf8_valid_utf8(chars);
    encode_utf8_decode_utf8(chars);
}

/// A string whose UTF-8 bytes are the ASCII bytes `expected` holds exactly the
/// characters those bytes stand for.
pub proof fn lemma_str_bytes_ascii(s: Seq<char>, expected: Seq<u8>)
    requires
        is_ascii_bytes(expected),
    ensures
        (encode_utf8(s) == expected) <==> (s == ascii_chars(expected)),
{
    lemma_ascii_encode(expected);
    if encode_utf8(s) == expected {
        encode_utf8_decode_utf8(s);
    }
}

/// `String::from_utf8`: `Some` exactly when the bytes are valid UTF-8, and then
/// the string holds the characters those bytes encode.
#[verifier::external_body]
pub(crate) fn string_from_utf8(bytes: Vec<u8>) -> (res: Option<String>)
    ensures
        res is Some <==> valid_utf8(bytes@),
        res matches Some(s) ==> s@ == decode_utf8(bytes@),
{
    String::from_utf8(bytes).ok()
}

/// Builds a string out of ASCII bytes.
pub fn ascii_string(bytes: Vec<u8>) -> (s: String)
    requires
        is_ascii_bytes(bytes@),
    ensures
        s@ == ascii_chars(bytes@),
{
    proof {
        lemma_ascii_encode(bytes@);
    }
    let ghost b = bytes@;
    match string_from_utf8(bytes) {
        Some(s) => s,
        None => {
            proof {
                assert(false);
            }
            String::new()
        },
    }
}

/// The UTF-8 bytes of a string slice.
pub fn str_bytes(s: &str) -> (b: &[u8])
    ensures
        b@ == encode_utf8(s@),
{
    s.as_bytes()
}

/// The digit for a number below the base, lowercase past nine.
pub open spec fn digit_byte(n: nat) -> u8 {
    if n < 10 {
        (0x30 + n) as u8
    } else {
        (0x61 + n - 10) as u8
    }
}

/// The digits of a number in a base from 2 to 16, most significant first,
/// without leading zeros ("0" for zero).
pub open spec fn digits(v: nat, base: nat) -> Seq<u8>
    decreases v,
{
    if v < base || base < 2 {
        seq![digit_byte(v % base)]
    } else {
        proof {
            vstd::arithmetic::div_mod::lemma_div_decreases(v as int, base as int);
        }
        digits(v / base, base).push(digit_byte(v % base))
    }
}

fn digit_exec(n: u8) -> (c: u8)
    requires
        n < 16,
    ensures
        c == digit_byte(n as nat),
        c < 128,
{
    if n < 10 {
        0x30 + n
    } else {
        0x61 + n - 10
    }
}

fn digit_bytes(v: u128, base: u128) -> (out: Vec<u8>)
    requires
        2 <= base <= 16,
    ensures
        out@ == digits(v as nat, base as nat),
        is_ascii_bytes(out@),
    decreases v,
{
    if v < base {
        proof {
            vstd::arithmetic::div_mod::lemma_small_mod(v as nat, base as nat);
        }
        let d = digit_exec(v as u8);
        let out = vec![d];
        assert(out@ =~= seq![digit_byte((v % base) as nat)]);
        out
    } else {
        proof {
            vstd::arithmetic::div_mod::lemma_div_decreases(v as int, base as int);
            vstd::arithmetic::div_mod::lemma_mod_pos_bound(v as int, base as int);
        }
        let mut out = digit_bytes(v / base, base);
        let d = digit_exec((v % base) as u8);
        out.push(d);
        out
    }
}

/// A number as lowercase hex digits, without leading zeros.
pub fn lower_hex_string(v: u128) -> (s: String)
    ensures
        s@ == ascii_chars(digits(v as nat, 16)),
{
    ascii_string(digit_bytes(v, 16))
}

/// The decimal text of a signed number: a minus sign where it is negative,
/// then its digits.
pub open spec fn signed_decimal(v: int) -> Seq<char> {
    if v < 0 {
        seq!['-'] + ascii_chars(digits((-v) as nat, 10))
    } else {
        ascii_chars(digits(v as nat, 10))
    }
}

/// A signed number as decimal text, as `i32`'s `Display` writes it.
pub fn i32_decimal_string(v: i32) -> (s: String)
    ensures
        s@ == signed_decimal(v as int),
{
    if v < 0 {
        let magnitude: u64 = (-(v as i64)) as u64;
        let mut s = "-".to_owned();
        let d = decimal_string(magnitude);
        s.append(d.as_str());
        proof {
            reveal_strlit("-");
        }
        assert(s@ =~= signed_decimal(v as int));
        s
    } else {
        decimal_string(v as u64)
    }
}

/// A number as decimal digits, without leading zeros.
pub fn decimal_string(v: u64) -> (s: String)
    ensures
        s@ == ascii_chars(digits(v as nat, 10)),
{
    ascii_string(digit_bytes(v as u128, 10))
}

} // verus!
