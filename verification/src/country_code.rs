//! The regions the game is released in.

use vstd::prelude::*;
use vstd::utf8::encode_utf8;
use crate::text::{ascii_chars, ascii_string, is_ascii_bytes, lemma_str_bytes_ascii, str_bytes};

verus! {

/// The region a save belongs to.
#[derive(Debug, Copy, Clone, PartialEq, Eq, Structural, Hash)]
pub enum CountryCode {
    Jp,
    En,
    Kr,
    Tw,
}

/// The two-letter code of a region: "jp", "en", "kr" or "tw".
pub open spec fn cc_code_bytes(cc: CountryCode) -> Seq<u8> {
    match cc {
        CountryCode::Jp => seq![0x6au8, 0x70u8],
        CountryCode::En => seq![0x65u8, 0x6eu8],
        CountryCode::Kr => seq![0x6bu8, 0x72u8],
        CountryCode::Tw => seq![0x74u8, 0x77u8],
    }
}

pub open spec fn cc_code(cc: CountryCode) -> Seq<char> {
    ascii_chars(cc_code_bytes(cc))
}

/// The language code of a region: "ja", "en", "ko" or "tw".
pub open spec fn cc_lang(cc: CountryCode) -> Seq<char> {
    match cc {
        CountryCode::Jp => seq!['j', 'a'],
        CountryCode::En => seq!['e', 'n'],
        CountryCode::Kr => seq!['k', 'o'],
        CountryCode::Tw => seq!['t', 'w'],
    }
}

impl Default for CountryCode {
    fn default() -> (cc: Self)
        ensures
            cc == CountryCode::Jp,
    {
        CountryCode::Jp
    }
}

impl CountryCode {
    pub fn to_lang(&self) -> (lang: &'static str)
        ensures
            lang@ == cc_lang(*self),
    {
        match self {
            CountryCode::Jp => {
                proof { reveal_strlit("ja"); }
                "ja"
            },
            CountryCode::En => {
                proof { reveal_strlit("en"); }
                "en"
            },
            CountryCode::Kr => {
                proof { reveal_strlit("ko"); }
                "ko"
            },
            CountryCode::Tw => {
                proof { reveal_strlit("tw"); }
                "tw"
            },
        }
    }
}

/// The region whose code a string is, if it is one.
pub open spec fn spec_parse_cc(s: Seq<char>) -> Option<CountryCode> {
    if s == cc_code(CountryCode::Jp) {
        Some(CountryCode::Jp)
    } else if s == cc_code(CountryCode::En) {
        Some(CountryCode::En)
    } else if s == cc_code(CountryCode::Kr) {
        Some(CountryCode::Kr)
    } else if s == cc_code(CountryCode::Tw) {
        Some(CountryCode::Tw)
    } else {
        None
    }
}

/// A string that is not the code of a region.
#[derive(Debug)]
pub struct InvalidCCStr(pub String);

/// Whether the UTF-8 bytes of a string are the two given ones.
fn bytes_are(b: &[u8], x: u8, y: u8) -> (r: bool)
    ensures
        r == (b@ == seq![x, y]),
{
    if b.len() == 2 && b[0] == x && b[1] == y {
        assert(b@ =~= seq![x, y]);
        true
    } else {
        false
    }
}

impl CountryCode {
    /// The regions in the order they are tried when a save's region is detected.
    pub fn all() -> (a: [CountryCode; 4])
        ensures
            a@ == seq![CountryCode::Jp, CountryCode::En, CountryCode::Kr, CountryCode::Tw],
    {
        let a = [CountryCode::Jp, CountryCode::En, CountryCode::Kr, CountryCode::Tw];
        assert(a@ =~= seq![CountryCode::Jp, CountryCode::En, CountryCode::Kr, CountryCode::Tw]);
        a
    }

    /// Parses a region code: "jp", "en", "kr" or "tw".
    pub fn from_str(s: &str) -> (res: Result<CountryCode, InvalidCCStr>)
        ensures
            match res {
                Ok(cc) => spec_parse_cc(s@) == Some(cc),
                Err(e) => spec_parse_cc(s@) is None && e.0@ == s@,
            },
    {
        let b = str_bytes(s);
        proof {
            lemma_str_bytes_ascii(s@, cc_code_bytes(CountryCode::Jp));
            lemma_str_bytes_ascii(s@, cc_code_bytes(CountryCode::En));
            lemma_str_bytes_ascii(s@, cc_code_bytes(CountryCode::Kr));
            lemma_str_bytes_ascii(s@, cc_code_bytes(CountryCode::Tw));
        }
        if bytes_are(b, 0x6a, 0x70) {
            Ok(CountryCode::Jp)
        } else if bytes_are(b, 0x65, 0x6e) {
            Ok(CountryCode::En)
        } else if bytes_are(b, 0x6b, 0x72) {
            Ok(CountryCode::Kr)
        } else if bytes_are(b, 0x74, 0x77) {
            Ok(CountryCode::Tw)
        } else {
            Err(InvalidCCStr(s.to_owned()))
        }
    }

    /// The two-letter code of the region.
    pub fn to_string(&self) -> (s: String)
        ensures
            s@ == cc_code(*self),
    {
        let b: Vec<u8> = match self {
            CountryCode::Jp => vec![0x6a, 0x70],
            CountryCode::En => vec![0x65, 0x6e],
            CountryCode::Kr => vec![0x6b, 0x72],
            CountryCode::Tw => vec![0x74, 0x77],
        };
        assert(b@ =~= cc_code_bytes(*self));
        ascii_string(b)
    }
}

impl std::str::FromStr for CountryCode {
    type Err = InvalidCCStr;

    fn from_str(s: &str) -> Result<CountryCode, InvalidCCStr> {
        CountryCode::from_str(s)
    }
}

/// Parsing the code of a region gives the region back.
pub proof fn lemma_cc_code_parse(cc: CountryCode)
    ensures
        spec_parse_cc(cc_code(cc)) == Some(cc),
{
    assert(cc_code(CountryCode::Jp) =~= seq!['j', 'p']);
    assert(cc_code(CountryCode::En) =~= seq!['e', 'n']);
    assert(cc_code(CountryCode::Kr) =~= seq!['k', 'r']);
    assert(cc_code(CountryCode::Tw) =~= seq!['t', 'w']);
}

/* Patching codes */

/// A region as it appears in the salt of save hashes and in patch file
/// names: empty for Japan, the region code otherwise.
#[derive(Debug, Copy, Clone, PartialEq, Eq, Structural, Hash)]
pub struct PatchingCode(pub CountryCode);

pub open spec fn patching_code(p: PatchingCode) -> Seq<char> {
    if p.0 == CountryCode::Jp {
        Seq::empty()
    } else {
        cc_code(p.0)
    }
}

pub open spec fn patching_code_bytes(p: PatchingCode) -> Seq<u8> {
    if p.0 == CountryCode::Jp {
        Seq::empty()
    } else {
        cc_code_bytes(p.0)
    }
}

/// The patching code a string is: Japan for the empty string, else the
/// region whose code it is.
pub open spec fn spec_parse_patching(s: Seq<char>) -> Option<PatchingCode> {
    if s.len() == 0 {
        Some(PatchingCode(CountryCode::Jp))
    } else {
        match spec_parse_cc(s) {
            Some(cc) => Some(PatchingCode(cc)),
            None => None,
        }
    }
}

impl PatchingCode {
    /// The regions in the order they are tried when a save's region is detected.
    pub fn all() -> (a: [PatchingCode; 4])
        ensures
            a@ == seq![
                PatchingCode(CountryCode::Jp),
                PatchingCode(CountryCode::En),
                PatchingCode(CountryCode::Kr),
                PatchingCode(CountryCode::Tw),
            ],
    {
        let a = [
            PatchingCode(CountryCode::Jp),
            PatchingCode(CountryCode::En),
            PatchingCode(CountryCode::Kr),
            PatchingCode(CountryCode::Tw),
        ];
        assert(a@ =~= seq![
            PatchingCode(CountryCode::Jp),
            PatchingCode(CountryCode::En),
            PatchingCode(CountryCode::Kr),
            PatchingCode(CountryCode::Tw),
        ]);
        a
    }

    pub fn from_str(s: &str) -> (res: Result<PatchingCode, InvalidCCStr>)
        ensures
            match res {
                Ok(p) => spec_parse_patching(s@) == Some(p),
                Err(e) => spec_parse_patching(s@) is None && e.0@ == s@,
            },
    {
        if s.is_empty() {
            return Ok(PatchingCode(CountryCode::Jp));
        }
        let cc = CountryCode::from_str(s)?;
        Ok(PatchingCode(cc))
    }

    /// The code: empty for Japan, the region code otherwise.
    pub fn to_string(&self) -> (s: String)
        ensures
            s@ == patching_code(*self),
    {
        if self.0 == CountryCode::Jp {
            let s = String::new();
            assert(s@ =~= patching_code(*self));
            s
        } else {
            self.0.to_string()
        }
    }

    /// The bytes of the code.
    pub fn to_bytes(&self) -> (b: Vec<u8>)
        ensures
            b@ == patching_code_bytes(*self),
            is_ascii_bytes(b@),
    {
        let b: Vec<u8> = match self.0 {
            CountryCode::Jp => Vec::new(),
            CountryCode::En => vec![0x65, 0x6e],
            CountryCode::Kr => vec![0x6b, 0x72],
            CountryCode::Tw => vec![0x74, 0x77],
        };
        assert(b@ =~= patching_code_bytes(*self));
        b
    }
}

impl std::str::FromStr for PatchingCode {
    type Err = InvalidCCStr;

    fn from_str(s: &str) -> Result<PatchingCode, InvalidCCStr> {
        PatchingCode::from_str(s)
    }
}

impl From<CountryCode> for PatchingCode {
    fn from(value: CountryCode) -> (p: PatchingCode) {
        PatchingCode(value)
    }
}

impl vstd::std_specs::convert::FromSpecImpl<CountryCode> for PatchingCode {
    open spec fn obeys_from_spec() -> bool {
        true
    }

    open spec fn from_spec(v: CountryCode) -> PatchingCode {
        PatchingCode(v)
    }
}

impl From<PatchingCode> for CountryCode {
    fn from(value: PatchingCode) -> (cc: CountryCode) {
        value.0
    }
}

impl vstd::std_specs::convert::FromSpecImpl<PatchingCode> for CountryCode {
    open spec fn obeys_from_spec() -> bool {
        true
    }

    open spec fn from_spec(v: PatchingCode) -> CountryCode {
        v.0
    }
}

/// Parsing the patching code of a region gives the region back.
pub proof fn lemma_patching_code_parse(p: PatchingCode)
    ensures
        spec_parse_patching(patching_code(p)) == Some(p),
{
    lemma_cc_code_parse(p.0);
    assert(cc_code(p.0).len() == 2);
}

} // verus!
