//! Request signatures: random bytes as lowercase hex, followed by the hex
//! HMAC of the request under a key made of the inquiry code and that hex.

use vstd::prelude::*;
use hmac::{Hmac, Mac};
use vstd::utf8::encode_utf8;
use crate::hash::{concat_bytes, hex_bytes, hex_encode};
use crate::text::{ascii_chars, ascii_string, is_ascii_bytes, str_bytes};

verus! {

/// The HMAC-SHA256 of `data` under `key`.
pub uninterp spec fn hmac_sha256(key: Seq<u8>, data: Seq<u8>) -> Seq<u8>;

/// The HMAC-SHA1 of `data` under `key`.
pub uninterp spec fn hmac_sha1(key: Seq<u8>, data: Seq<u8>) -> Seq<u8>;

/// `Hmac<Sha256>` of the `hmac` crate, keyed from a slice (which takes keys
/// of any length), fed `data` and finalised: the tag, named by
/// `hmac_sha256`, of 32 bytes.
#[verifier::external_body]
fn hmac_sha256_tag(key: &[u8], data: &[u8]) -> (tag: Vec<u8>)
    ensures
        tag@ == hmac_sha256(key@, data@),
        tag@.len() == 32,
{
    let mut mac = <Hmac<sha2::Sha256> as Mac>::new_from_slice(key).expect("HMAC takes any key length");
    mac.update(data);
    mac.finalize().into_bytes().to_vec()
}

/// `Hmac<Sha1>` of the `hmac` crate, keyed from a slice, fed `data` and
/// finalised: the tag, named by `hmac_sha1`, of 20 bytes.
#[verifier::external_body]
fn hmac_sha1_tag(key: &[u8], data: &[u8]) -> (tag: Vec<u8>)
    ensures
        tag@ == hmac_sha1(key@, data@),
        tag@.len() == 20,
{
    let mut mac = <Hmac<sha1::Sha1> as Mac>::new_from_slice(key).expect("HMAC takes any key length");
    mac.update(data);
    mac.finalize().into_bytes().to_vec()
}

/// The system's random source failed; the message says why.
#[derive(Debug, Clone, PartialEq, Eq)]
pub struct RandomError(pub String);

/// `getrandom::fill` on `len` zero bytes: the bytes it filled, or the text of
/// its error. Nothing is said of the bytes but their number.
#[verifier::external_body]
pub(crate) fn random_bytes(len: usize) -> (res: Result<Vec<u8>, RandomError>)
    ensures
        res matches Ok(v) ==> v@.len() == len,
{
    let mut buf = vec![0u8; len];
    match getrandom::fill(&mut buf) {
        Ok(()) => Ok(buf),
        Err(e) => Err(RandomError(e.to_string())),
    }
}

/// The key of a signature: the inquiry code's bytes, then the random bytes as
/// lowercase hex.
pub open spec fn signature_key(inquiry_code: Seq<char>, random: Seq<u8>) -> Seq<u8> {
    encode_utf8(inquiry_code) + hex_encode(random)
}

/// A version 2 signature: the random bytes as hex, then the hex HMAC-SHA256 of
/// the data.
pub open spec fn signature_v2(inquiry_code: Seq<char>, data: Seq<u8>, random: Seq<u8>) -> Seq<char> {
    ascii_chars(hex_encode(random) + hex_encode(hmac_sha256(signature_key(inquiry_code, random), data)))
}

/// A version 1 signature: as version 2, with HMAC-SHA1 over the data written
/// twice.
pub open spec fn signature_v1(inquiry_code: Seq<char>, data: Seq<u8>, random: Seq<u8>) -> Seq<char> {
    ascii_chars(hex_encode(random) + hex_encode(hmac_sha1(signature_key(inquiry_code, random), data + data)))
}

/// Signs `data` with the given random bytes, version 2.
pub fn sign_v2_with(inquiry_code: &str, data: &[u8], random: &[u8]) -> (s: String)
    ensures
        s@ == signature_v2(inquiry_code@, data@, random@),
{
    let random_hex = hex_bytes(random);
    let key = concat_bytes(str_bytes(inquiry_code), random_hex.as_slice());
    let tag = hmac_sha256_tag(key.as_slice(), data);
    let tag_hex = hex_bytes(tag.as_slice());
    let text = concat_bytes(random_hex.as_slice(), tag_hex.as_slice());
    assert(is_ascii_bytes(text@)) by {
        assert forall|i: int| 0 <= i < text@.len() implies #[trigger] text@[i] < 128 by {
            if i < random_hex@.len() {
                assert(text@[i] == random_hex@[i]);
            } else {
                assert(text@[i] == tag_hex@[i - random_hex@.len()]);
            }
        }
    }
    ascii_string(text)
}

/// Signs `data` with the given random bytes, version 1 (the data is signed
/// twice over).
pub fn sign_v1_with(inquiry_code: &str, data: &[u8], random: &[u8]) -> (s: String)
    ensures
        s@ == signature_v1(inquiry_code@, data@, random@),
{
    let doubled = concat_bytes(data, data);
    let random_hex = hex_bytes(random);
    let key = concat_bytes(str_bytes(inquiry_code), random_hex.as_slice());
    let tag = hmac_sha1_tag(key.as_slice(), doubled.as_slice());
    let tag_hex = hex_bytes(tag.as_slice());
    let text = concat_bytes(random_hex.as_slice(), tag_hex.as_slice());
    assert(is_ascii_bytes(text@)) by {
        assert forall|i: int| 0 <= i < text@.len() implies #[trigger] text@[i] < 128 by {
            if i < random_hex@.len() {
                assert(text@[i] == random_hex@[i]);
            } else {
                assert(text@[i] == tag_hex@[i - random_hex@.len()]);
            }
        }
    }
    ascii_string(text)
}

/// Signs `data` for the auth and save servers with 32 fresh random bytes.
pub fn sign_v2(inquiry_code: &str, data: &[u8]) -> (res: Result<String, RandomError>)
    ensures
        res matches Ok(s) ==> exists|r: Seq<u8>| r.len() == 32 && s@ == signature_v2(inquiry_code@, data@, r),
{
    let random = random_bytes(32)?;
    let s = sign_v2_with(inquiry_code, data, random.as_slice());
    assert(random@.len() == 32 && s@ == signature_v2(inquiry_code@, data@, random@));
    Ok(s)
}

/// Signs `data` for managed items with 20 fresh random bytes.
pub fn sign_v1(inquiry_code: &str, data: &[u8]) -> (res: Result<String, RandomError>)
    ensures
        res matches Ok(s) ==> exists|r: Seq<u8>| r.len() == 20 && s@ == signature_v1(inquiry_code@, data@, r),
{
    let random = random_bytes(20)?;
    let s = sign_v1_with(inquiry_code, data, random.as_slice());
    assert(random@.len() == 20 && s@ == signature_v1(inquiry_code@, data@, random@));
    Ok(s)
}

} // verus!
