//! The integrity hash of a save: its last 32 bytes are the lowercase hex
//! MD5 digest of a salt ("battlecats" and the patching code of the region)
//! followed by the rest of the save.

use vstd::prelude::*;
use crate::country_code::{PatchingCode, patching_code_bytes, CountryCode};
use crate::stream::Writer;
use crate::text::{ascii_chars, ascii_string, is_ascii_bytes, str_bytes};
use vstd::utf8::encode_utf8;

verus! {

/* MD5 */

/// The MD5 digest of `data`.
pub uninterp spec fn md5_digest(data: Seq<u8>) -> [u8; 16];

/// `md5::compute`: the digest of the bytes, named by `md5_digest`.
#[verifier::external_body]
fn md5_hash(data: &[u8]) -> (h: [u8; 16])
    ensures
        h == md5_digest(data@),
{
    md5::compute(data).0
}

/* Byte helpers */

/// The two parts of a save: the data, and its last 32 bytes.
fn split_at_last_32_bytes(data: &[u8]) -> (res: Option<(&[u8], &[u8])>)
    ensures
        res is Some <==> data@.len() > 32,
        res matches Some((a, b)) ==> a@ == data@.take(data@.len() - 32) && b@ == data@.skip(
            data@.len() - 32,
        ),
{
    let total = data.len();
    if total <= 32 {
        return None;
    }
    let (a, b) = data.split_at(total - 32);
    assert(a@ =~= data@.take(data@.len() - 32));
    assert(b@ =~= data@.skip(data@.len() - 32));
    Some((a, b))
}

pub(crate) fn concat_bytes(a: &[u8], b: &[u8]) -> (v: Vec<u8>)
    ensures
        v@ == a@ + b@,
{
    let mut v: Vec<u8> = Vec::new();
    let mut i: usize = 0;
    while i < a.len()
        invariant
            i <= a.len(),
            v@ == a@.take(i as int),
        decreases a.len() - i,
    {
        v.push(a[i]);
        i = i + 1;
        assert(v@ =~= a@.take(i as int));
    }
    let mut j: usize = 0;
    while j < b.len()
        invariant
            j <= b.len(),
            v@ == a@ + b@.take(j as int),
        decreases b.len() - j,
    {
        v.push(b[j]);
        j = j + 1;
        assert(v@ =~= a@ + b@.take(j as int));
    }
    assert(a@.take(a@.len() as int) =~= a@);
    assert(b@.take(b@.len() as int) =~= b@);
    v
}

/* The salt */

/// "battlecats" followed by the patching code of the region.
pub open spec fn salt_bytes(cc: PatchingCode) -> Seq<u8> {
    seq![0x62u8, 0x61, 0x74, 0x74, 0x6c, 0x65, 0x63, 0x61, 0x74, 0x73] + patching_code_bytes(cc)
}

pub fn get_salt(cc: PatchingCode) -> (salt: Vec<u8>)
    ensures
        salt@ == salt_bytes(cc),
{
    let prefix: Vec<u8> = vec![0x62, 0x61, 0x74, 0x74, 0x6c, 0x65, 0x63, 0x61, 0x74, 0x73];
    let code = cc.to_bytes();
    let salt = concat_bytes(prefix.as_slice(), code.as_slice());
    assert(salt@ =~= salt_bytes(cc));
    salt
}

/// The digest that guards `data` for a region.
pub open spec fn save_digest(data: Seq<u8>, cc: PatchingCode) -> Seq<u8> {
    md5_digest(salt_bytes(cc) + data)@
}

/* Hex */

/// The lowercase hex digit for a number below 16.
pub open spec fn hex_digit(n: u8) -> u8 {
    if n < 10 {
        (0x30 + n) as u8
    } else {
        (0x61 + n - 10) as u8
    }
}

/// Two lowercase hex digits per byte, high half first.
pub open spec fn hex_encode(data: Seq<u8>) -> Seq<u8> {
    Seq::new(
        2 * data.len(),
        |i: int|
            if i % 2 == 0 {
                hex_digit(data[i / 2] / 16)
            } else {
                hex_digit(data[i / 2] % 16)
            },
    )
}

pub(crate) fn hex_digit_exec(n: u8) -> (c: u8)
    requires
        n < 16,
    ensures
        c == hex_digit(n),
{
    if n < 10 {
        0x30 + n
    } else {
        0x61 + n - 10
    }
}

/// The hex digits of the bytes, as bytes.
pub(crate) fn hex_bytes(bytes: &[u8]) -> (out: Vec<u8>)
    ensures
        out@ == hex_encode(bytes@),
        is_ascii_bytes(out@),
{
    let mut out: Vec<u8> = Vec::new();
    let mut i: usize = 0;
    while i < bytes.len()
        invariant
            i <= bytes.len(),
            out@.len() == 2 * i,
            forall|j: int| 0 <= j < 2 * i ==> #[trigger] out@[j] == hex_encode(bytes@)[j],
            is_ascii_bytes(out@),
        decreases bytes.len() - i,
    {
        let b = bytes[i];
        out.push(hex_digit_exec(b / 16));
        out.push(hex_digit_exec(b % 16));
        i = i + 1;
    }
    assert(out@ =~= hex_encode(bytes@));
    out
}

/// The bytes as lowercase hex, two digits each.
pub fn encode_hex(bytes: &[u8]) -> (s: String)
    ensures
        s@ == ascii_chars(hex_encode(bytes@)),
{
    let b = hex_bytes(bytes);
    ascii_string(b)
}

/// The value of a hex digit, either case.
pub open spec fn hex_value(c: u8) -> Option<u8> {
    if 0x30 <= c <= 0x39 {
        Some((c - 0x30) as u8)
    } else if 0x61 <= c <= 0x66 {
        Some((c - 0x61 + 10) as u8)
    } else if 0x41 <= c <= 0x46 {
        Some((c - 0x41 + 10) as u8)
    } else {
        None
    }
}

/// Two characters read as a number in base 16, as `u8::from_str_radix`
/// reads them: two hex digits, or a plus sign and one.
pub open spec fn pair_value(h: u8, l: u8) -> Option<u8> {
    if h == 0x2b {
        hex_value(l)
    } else {
        match (hex_value(h), hex_value(l)) {
            (Some(a), Some(b)) => Some((a * 16 + b) as u8),
            _ => None,
        }
    }
}

/// The bytes that hex text stands for, where it is of even length and each
/// pair reads as a number.
pub open spec fn spec_decode_hex(s: Seq<u8>) -> Option<Seq<u8>> {
    if s.len() % 2 == 0 && forall|i: int| 0 <= i < s.len() / 2 ==> (#[trigger] pair_value(s[2 * i], s[2 * i + 1])) is Some {
        Some(Seq::new(s.len() / 2, |i: int| pair_value(s[2 * i], s[2 * i + 1]).unwrap()))
    } else {
        None
    }
}

fn hex_value_exec(c: u8) -> (v: Option<u8>)
    ensures
        v == hex_value(c),
{
    if 0x30 <= c && c <= 0x39 {
        Some(c - 0x30)
    } else if 0x61 <= c && c <= 0x66 {
        Some(c - 0x61 + 10)
    } else if 0x41 <= c && c <= 0x46 {
        Some(c - 0x41 + 10)
    } else {
        None
    }
}

fn pair_value_exec(h: u8, l: u8) -> (v: Option<u8>)
    ensures
        v == pair_value(h, l),
{
    if h == 0x2b {
        hex_value_exec(l)
    } else {
        match (hex_value_exec(h), hex_value_exec(l)) {
            (Some(a), Some(b)) => Some(a * 16 + b),
            _ => None,
        }
    }
}

fn decode_hex_bytes(s: &[u8]) -> (res: Option<Vec<u8>>)
    ensures
        match spec_decode_hex(s@) {
            Some(d) => res matches Some(v) && v@ == d,
            None => res is None,
        },
{
    if s.len() % 2 != 0 {
        return None;
    }
    let mut out: Vec<u8> = Vec::new();
    let mut i: usize = 0;
    while i < s.len() / 2
        invariant
            s@.len() % 2 == 0,
            i <= s@.len() / 2,
            out@.len() == i,
            forall|j: int| 0 <= j < i ==> (#[trigger] pair_value(s@[2 * j], s@[2 * j + 1])) == Some(out@[j]),
        decreases s.len() / 2 - i,
    {
        match pair_value_exec(s[2 * i], s[2 * i + 1]) {
            Some(v) => out.push(v),
            None => {
                return None;
            },
        }
        i = i + 1;
    }
    assert(out@ =~= Seq::new(s@.len() / 2, |j: int| pair_value(s@[2 * j], s@[2 * j + 1]).unwrap()));
    Some(out)
}

/// Reads hex text: `None` where its length is odd or a pair is not a number
/// in base 16.
pub fn decode_hex(s: &str) -> (res: Option<Vec<u8>>)
    ensures
        match spec_decode_hex(encode_utf8(s@)) {
            Some(d) => res matches Some(v) && v@ == d,
            None => res is None,
        },
{
    decode_hex_bytes(str_bytes(s))
}

/// Hex text reads back as the bytes it was written from.
pub proof fn lemma_hex_roundtrip(data: Seq<u8>)
    ensures
        spec_decode_hex(hex_encode(data)) == Some(data),
{
    let s = hex_encode(data);
    assert forall|i: int| 0 <= i < s.len() / 2 implies (#[trigger] pair_value(s[2 * i], s[2 * i + 1])) == Some(
        data[i],
    ) by {
        let b = data[i];
        assert((2 * i) / 2 == i);
        assert((2 * i + 1) / 2 == i);
        assert((2 * i) % 2 == 0);
        assert((2 * i + 1) % 2 == 1);
        assert(b / 16 < 16);
        assert((b / 16) * 16 + b % 16 == b);
    }
    assert(Seq::new(s.len() / 2, |i: int| pair_value(s[2 * i], s[2 * i + 1]).unwrap()) =~= data);
}

/* Hashing saves */

/// The digest of the data of a save (all but its last 32 bytes), where
/// there is more than the 32 bytes.
pub fn md5_hash_save(data: &[u8], cc: PatchingCode) -> (res: Option<[u8; 16]>)
    ensures
        data@.len() > 32 ==> res == Some(md5_digest(salt_bytes(cc) + data@.take(data@.len() - 32))),
        data@.len() <= 32 ==> res is None,
{
    let (save_data, _) = split_at_last_32_bytes(data)?;
    let salt = get_salt(cc);
    let to_hash = concat_bytes(salt.as_slice(), save_data);
    Some(md5_hash(to_hash.as_slice()))
}

/// The data followed by its hash.
pub open spec fn spec_add_hash(data: Seq<u8>, cc: PatchingCode) -> Seq<u8> {
    data + hex_encode(save_digest(data, cc))
}

/// Replaces the last 32 bytes of a save by the hash of the rest, where there
/// is more than the 32 bytes.
pub fn write_hash(data: &[u8], cc: PatchingCode) -> (res: Option<Vec<u8>>)
    ensures
        data@.len() > 32 ==> (res matches Some(v) && v@ == spec_add_hash(data@.take(data@.len() - 32), cc)),
        data@.len() <= 32 ==> res is None,
{
    let (save_data, _) = split_at_last_32_bytes(data)?;
    let salt = get_salt(cc);
    let to_hash = concat_bytes(salt.as_slice(), save_data);
    let hash = md5_hash(to_hash.as_slice());
    let to_add = hex_bytes(&hash);
    Some(concat_bytes(save_data, to_add.as_slice()))
}

/// Appends the hash of the data to the data.
pub fn add_hash(data: &[u8], cc: PatchingCode) -> (res: Option<Vec<u8>>)
    ensures
        res matches Some(v) && v@ == spec_add_hash(data@, cc),
{
    let salt = get_salt(cc);
    let to_hash = concat_bytes(salt.as_slice(), data);
    let hash = md5_hash(to_hash.as_slice());
    let to_add = hex_bytes(&hash);
    Some(concat_bytes(data, to_add.as_slice()))
}

/// Appends to what was written the hash of it.
pub fn add_hash_w(w: &mut Writer, cc: PatchingCode)
    ensures
        final(w).bytes() == spec_add_hash(old(w).bytes(), cc),
{
    let data = w.bytes_vec();
    let salt = get_salt(cc);
    let to_hash = concat_bytes(salt.as_slice(), data.as_slice());
    let hash = md5_hash(to_hash.as_slice());
    let to_add = hex_bytes(&hash);
    w.write_bytes(to_add.as_slice());
}

/// Whether the last 32 bytes of a save are the hex digest of the rest, for
/// the region.
pub open spec fn spec_verify_hash(data: Seq<u8>, cc: PatchingCode) -> bool {
    &&& data.len() > 32
    &&& spec_decode_hex(data.skip(data.len() - 32)) == Some(save_digest(data.take(data.len() - 32), cc))
}

fn bytes_match(v: &Vec<u8>, h: &[u8; 16]) -> (r: bool)
    ensures
        r == (v@ == h@),
{
    if v.len() != 16 {
        return false;
    }
    let mut i: usize = 0;
    while i < 16
        invariant
            v@.len() == 16,
            h@.len() == 16,
            i <= 16,
            forall|j: int| 0 <= j < i ==> v@[j] == h@[j],
        decreases 16 - i,
    {
        if v[i] != h[i] {
            return false;
        }
        i = i + 1;
    }
    assert(v@ =~= h@);
    true
}

/// Whether the save carries the right hash for the region. Its last 32 bytes
/// are read as hex text; bytes that are not ASCII hex make it fail.
pub fn verify_md5_hash_save(data: &[u8], cc: PatchingCode) -> (ok: bool)
    ensures
        ok == spec_verify_hash(data@, cc),
{
    match split_at_last_32_bytes(data) {
        Some((save_data, current_hash)) => {
            match decode_hex_bytes(current_hash) {
                Some(current) => {
                    let salt = get_salt(cc);
                    let to_hash = concat_bytes(salt.as_slice(), save_data);
                    let actual = md5_hash(to_hash.as_slice());
                    bytes_match(&current, &actual)
                },
                None => false,
            }
        },
        None => false,
    }
}

/// A save with its hash appended verifies for the region, whenever there is
/// any data before the hash.
pub proof fn lemma_add_hash_verifies(data: Seq<u8>, cc: PatchingCode)
    requires
        data.len() > 0,
    ensures
        spec_verify_hash(spec_add_hash(data, cc), cc),
{
    let h = save_digest(data, cc);
    let all = spec_add_hash(data, cc);
    assert(h.len() == 16);
    assert(all.len() == data.len() + 32);
    assert(all.take(all.len() - 32) =~= data);
    assert(all.skip(all.len() - 32) =~= hex_encode(h));
    lemma_hex_roundtrip(h);
}

/// The region of a save: the first of Japan, English, Korea and Taiwan whose
/// hash the save carries.
pub fn detect_cc(data: &[u8]) -> (res: Option<PatchingCode>)
    ensures
        match res {
            Some(p) => spec_verify_hash(data@, p) && (forall|q: PatchingCode|
                #![trigger spec_verify_hash(data@, q)]
                spec_verify_hash(data@, q) ==> cc_order(p) <= cc_order(q)),
            None => forall|q: PatchingCode| !#[trigger] spec_verify_hash(data@, q),
        },
{
    let all = PatchingCode::all();
    let mut i: usize = 0;
    while i < 4
        invariant
            all@ == seq![
                PatchingCode(CountryCode::Jp),
                PatchingCode(CountryCode::En),
                PatchingCode(CountryCode::Kr),
                PatchingCode(CountryCode::Tw),
            ],
            i <= 4,
            forall|q: PatchingCode| cc_order(q) < i ==> !#[trigger] spec_verify_hash(data@, q),
        decreases 4 - i,
    {
        let cc = all[i];
        assert(cc_order(cc) == i);
        if verify_md5_hash_save(data, cc) {
            return Some(cc);
        }
        i = i + 1;
    }
    None
}

/// The place of a region in the order regions are tried.
pub open spec fn cc_order(p: PatchingCode) -> int {
    match p.0 {
        CountryCode::Jp => 0,
        CountryCode::En => 1,
        CountryCode::Kr => 2,
        CountryCode::Tw => 3,
    }
}


/// The salt of a region is the text "battlecats" followed by the region's
/// patching code (empty for Japan, the two-letter code that `to_string`
/// gives and `from_str` reads otherwise), as UTF-8 bytes.
pub proof fn lemma_salt_text(p: PatchingCode)
    ensures
        salt_bytes(p) == encode_utf8("battlecats"@ + crate::country_code::patching_code(p)),
        crate::country_code::spec_parse_patching(crate::country_code::patching_code(p)) == Some(p),
        p.0 == CountryCode::Jp ==> salt_bytes(p) == encode_utf8("battlecats"@),
        p.0 == CountryCode::En ==> salt_bytes(p) == encode_utf8("battlecatsen"@),
        p.0 == CountryCode::Kr ==> salt_bytes(p) == encode_utf8("battlecatskr"@),
        p.0 == CountryCode::Tw ==> salt_bytes(p) == encode_utf8("battlecatstw"@),
{
    reveal_strlit("battlecatsen");
    reveal_strlit("battlecatskr");
    reveal_strlit("battlecatstw");
    reveal_strlit("battlecats");
    let prefix: Seq<u8> = seq![0x62u8, 0x61, 0x74, 0x74, 0x6c, 0x65, 0x63, 0x61, 0x74, 0x73];
    assert(ascii_chars(prefix) =~= "battlecats"@);
    let code = patching_code_bytes(p);
    assert(ascii_chars(code) =~= crate::country_code::patching_code(p));
    assert(ascii_chars(salt_bytes(p)) =~= ascii_chars(prefix) + ascii_chars(code));
    assert(is_ascii_bytes(salt_bytes(p)));
    crate::text::lemma_str_bytes_ascii("battlecats"@ + crate::country_code::patching_code(p), salt_bytes(p));
    crate::country_code::lemma_patching_code_parse(p);
    let text = "battlecats"@ + crate::country_code::patching_code(p);
    if p.0 == CountryCode::Jp {
        assert(text =~= "battlecats"@);
    } else if p.0 == CountryCode::En {
        assert(text =~= "battlecatsen"@);
    } else if p.0 == CountryCode::Kr {
        assert(text =~= "battlecatskr"@);
    } else {
        assert(text =~= "battlecatstw"@);
    }
}

} // verus!
