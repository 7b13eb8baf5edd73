//! Game versions: a number such as 140300 that stands for "14.03.00".

use vstd::prelude::*;
use crate::stream::{Codec, Readable, Reader, StreamResult, Writable, Writer};
use crate::text::{ascii_chars, ascii_string, is_ascii_bytes, str_bytes};
use vstd::utf8::{decode_utf8, encode_utf8, valid_utf8};
use crate::text::{digit_byte, digits, lemma_ascii_encode, signed_decimal, string_from_utf8};

verus! {

/// A game version; its decimal digits in pairs are the segments, most
/// significant first (140300 is 14.03.00).
#[derive(Debug, Copy, Clone, PartialEq, Eq, Structural, Hash, PartialOrd, Ord)]
pub struct GameVersion(pub u32);

/// The three segments of a version: its decimal digits in pairs, each taken modulo 100.
pub open spec fn spec_segments(v: u32) -> Seq<u8> {
    seq![((v / 10000) % 100) as u8, ((v / 100) % 100) as u8, (v % 100) as u8]
}

/// The version with the given segments.
pub open spec fn spec_from_segments(s0: u8, s1: u8, s2: u8) -> u32 {
    (s0 * 10000 + s1 * 100 + s2) as u32
}

impl Default for GameVersion {
    fn default() -> (gv: Self)
        ensures
            gv.0 == 0,
    {
        GameVersion(0)
    }
}

impl GameVersion {
    pub fn into_segments(self) -> (segments: [u8; 3])
        ensures
            segments@ == spec_segments(self.0),
    {
        let segments = [
            ((self.0 / 10_000) % 100) as u8,
            ((self.0 / 100) % 100) as u8,
            (self.0 % 100) as u8,
        ];
        assert(segments@ =~= spec_segments(self.0));
        segments
    }

    pub fn from_segments(segments: [u8; 3]) -> (gv: Self)
        ensures
            gv.0 == spec_from_segments(segments@[0], segments@[1], segments@[2]),
    {
        GameVersion(segments[0] as u32 * 10_000 + segments[1] as u32 * 100 + segments[2] as u32)
    }

    pub fn from_u32(value: u32) -> (gv: Self)
        ensures
            gv.0 == value,
    {
        GameVersion(value)
    }

    pub fn into_u32(self) -> (v: u32)
        ensures
            v == self.0,
    {
        self.0
    }
}

/// Splitting a version into segments and joining them again gives it back,
/// for every version below 1000000 (from there on the top digits are lost).
pub proof fn lemma_segments_roundtrip(v: u32)
    requires
        v < 1_000_000,
    ensures
        spec_from_segments(spec_segments(v)[0], spec_segments(v)[1], spec_segments(v)[2]) == v,
{
}

/// Joining segments below 100 and splitting the version gives them back.
#[verifier::rlimit(40)]
pub proof fn lemma_from_segments_roundtrip(s0: u8, s1: u8, s2: u8)
    requires
        s0 < 100,
        s1 < 100,
        s2 < 100,
    ensures
        spec_segments(spec_from_segments(s0, s1, s2)) == seq![s0, s1, s2],
{
    let v = spec_from_segments(s0, s1, s2);
    assert(v / 10000 == s0);
    assert((v / 100) % 100 == s1);
    assert(v % 100 == s2);
    assert(spec_segments(v) =~= seq![s0, s1, s2]);
}

impl Readable for GameVersion {
    open spec fn spec_read(bytes: Seq<u8>) -> Option<(GameVersion, int)> {
        match u32::spec_read(bytes) {
            Some((v, k)) => Some((GameVersion(v), k)),
            None => None,
        }
    }

    proof fn lemma_read_bounds(bytes: Seq<u8>) {
        u32::lemma_read_bounds(bytes);
    }

    fn read(r: &mut Reader) -> (res: StreamResult<GameVersion>) {
        let v = u32::read(r)?;
        Ok(GameVersion(v))
    }
}

impl Writable for GameVersion {
    open spec fn spec_write(&self) -> Seq<u8> {
        self.0.spec_write()
    }

    open spec fn can_write(&self) -> bool {
        true
    }

    open spec fn spec_default() -> GameVersion {
        GameVersion(0)
    }

    fn write(&self, w: &mut Writer) {
        self.0.write(w);
    }

    fn default_value() -> (d: GameVersion) {
        GameVersion(0)
    }

    proof fn lemma_default_writable() {
    }
}

impl Codec for GameVersion {
    proof fn lemma_roundtrip(v: GameVersion, rest: Seq<u8>) {
        u32::lemma_roundtrip(v.0, rest);
    }
}

/* Text: "14.03.00" */

/// The text of a number below 100 as two decimal digits.
pub open spec fn two_digits(n: u8) -> Seq<u8> {
    seq![(0x30 + n / 10) as u8, (0x30 + n % 10) as u8]
}

/// The text of a version: its segments as two digits each, joined by dots.
pub open spec fn spec_version_text(v: u32) -> Seq<u8> {
    let s = spec_segments(v);
    two_digits(s[0]) + seq![0x2eu8] + two_digits(s[1]) + seq![0x2eu8] + two_digits(s[2])
}

impl GameVersion {
    /// The version as text, such as "14.03.00".
    pub fn to_string(&self) -> (s: String)
        ensures
            s@ == ascii_chars(spec_version_text(self.0)),
    {
        let seg = self.into_segments();
        let b: Vec<u8> = vec![
            0x30 + seg[0] / 10,
            0x30 + seg[0] % 10,
            0x2e,
            0x30 + seg[1] / 10,
            0x30 + seg[1] % 10,
            0x2e,
            0x30 + seg[2] / 10,
            0x30 + seg[2] % 10,
        ];
        assert(b@ =~= spec_version_text(self.0));
        ascii_string(b)
    }
}

/// Why a number could not be read, as `std::num::IntErrorKind` tells it.
#[derive(Debug, Copy, Clone, PartialEq, Eq, Structural)]
pub enum IntErrorKind {
    Empty,
    InvalidDigit,
    PosOverflow,
    NegOverflow,
}

pub open spec fn decimal_digit(c: u8) -> Option<nat> {
    if 0x30 <= c <= 0x39 {
        Some((c - 0x30) as nat)
    } else {
        None
    }
}

/// Reads decimal digits from `i` on with `acc` the value so far, as a `u8`:
/// the first character that is not a digit, or the first digit that takes
/// the value past 255, is an error.
pub open spec fn parse_digits(s: Seq<u8>, i: nat, acc: nat) -> Result<u8, IntErrorKind>
    decreases s.len() - i,
{
    if i >= s.len() {
        Ok(acc as u8)
    } else {
        match decimal_digit(s[i as int]) {
            None => Err(IntErrorKind::InvalidDigit),
            Some(d) => if acc * 10 + d > 255 {
                Err(IntErrorKind::PosOverflow)
            } else {
                parse_digits(s, i + 1, acc * 10 + d)
            },
        }
    }
}

/// A `u8` read from decimal text as `str::parse` reads it: a leading plus
/// sign is allowed, a sign alone is an invalid digit, and empty text is an
/// error of its own.
pub open spec fn spec_parse_u8(s: Seq<u8>) -> Result<u8, IntErrorKind> {
    if s.len() == 0 {
        Err(IntErrorKind::Empty)
    } else if (s[0] == 0x2b || s[0] == 0x2d) && s.len() == 1 {
        Err(IntErrorKind::InvalidDigit)
    } else if s[0] == 0x2b {
        parse_digits(s, 1, 0)
    } else {
        parse_digits(s, 0, 0)
    }
}

/// Reads decimal digits from `i` on as an `i32`, with `acc` the value so
/// far, subtracting each digit where the number is negative: the first
/// character that is not a digit, or the first digit that takes the value out
/// of range, is an error.
pub open spec fn parse_digits_i32(s: Seq<u8>, i: nat, acc: int, negative: bool) -> Result<i32, IntErrorKind>
    decreases s.len() - i,
{
    if i >= s.len() {
        Ok(acc as i32)
    } else {
        match decimal_digit(s[i as int]) {
            None => Err(IntErrorKind::InvalidDigit),
            Some(d) => {
                let next = if negative { acc * 10 - d } else { acc * 10 + d };
                if next > i32::MAX {
                    Err(IntErrorKind::PosOverflow)
                } else if next < i32::MIN {
                    Err(IntErrorKind::NegOverflow)
                } else {
                    parse_digits_i32(s, i + 1, next, negative)
                }
            },
        }
    }
}

/// An `i32` read from decimal text as `str::parse` reads it: one leading sign
/// is allowed, a sign alone is an invalid digit, and empty text is an error of
/// its own.
pub open spec fn spec_parse_i32(s: Seq<u8>) -> Result<i32, IntErrorKind> {
    if s.len() == 0 {
        Err(IntErrorKind::Empty)
    } else if (s[0] == 0x2b || s[0] == 0x2d) && s.len() == 1 {
        Err(IntErrorKind::InvalidDigit)
    } else if s[0] == 0x2b {
        parse_digits_i32(s, 1, 0, false)
    } else if s[0] == 0x2d {
        parse_digits_i32(s, 1, 0, true)
    } else {
        parse_digits_i32(s, 0, 0, false)
    }
}

pub fn parse_i32(s: &[u8]) -> (res: Result<i32, IntErrorKind>)
    ensures
        res == spec_parse_i32(s@),
{
    if s.len() == 0 {
        return Err(IntErrorKind::Empty);
    }
    if (s[0] == 0x2b || s[0] == 0x2d) && s.len() == 1 {
        return Err(IntErrorKind::InvalidDigit);
    }
    let negative = s[0] == 0x2d;
    let start: usize = if s[0] == 0x2b || s[0] == 0x2d { 1 } else { 0 };
    let mut i: usize = start;
    let mut acc: i64 = 0;
    while i < s.len()
        invariant
            start <= i <= s@.len(),
            i32::MIN <= acc <= i32::MAX,
            spec_parse_i32(s@) == parse_digits_i32(s@, i as nat, acc as int, negative),
        decreases s.len() - i,
    {
        let c = s[i];
        if c < 0x30 || c > 0x39 {
            return Err(IntErrorKind::InvalidDigit);
        }
        let d = (c - 0x30) as i64;
        let next = if negative { acc * 10 - d } else { acc * 10 + d };
        if next > 0x7fff_ffff {
            return Err(IntErrorKind::PosOverflow);
        }
        if next < -0x8000_0000 {
            return Err(IntErrorKind::NegOverflow);
        }
        acc = next;
        i = i + 1;
    }
    Ok(acc as i32)
}

/// One more character read by `parse_digits_i32` after `acc`.
pub open spec fn parse_step_i32(acc: int, c: u8, negative: bool) -> Result<i32, IntErrorKind> {
    match decimal_digit(c) {
        None => Err(IntErrorKind::InvalidDigit),
        Some(d) => {
            let next = if negative { acc * 10 - d } else { acc * 10 + d };
            if next > i32::MAX {
                Err(IntErrorKind::PosOverflow)
            } else if next < i32::MIN {
                Err(IntErrorKind::NegOverflow)
            } else {
                Ok(next as i32)
            }
        },
    }
}

/// Reading one more character after the text is one more step after reading
/// the text.
proof fn lemma_parse_snoc(b: Seq<u8>, c: u8, i: nat, acc: int, negative: bool)
    requires
        i <= b.len(),
        i32::MIN <= acc <= i32::MAX,
    ensures
        parse_digits_i32(b.push(c), i, acc, negative) == match parse_digits_i32(b, i, acc, negative) {
            Ok(x) => parse_step_i32(x as int, c, negative),
            Err(e) => Err(e),
        },
    decreases b.len() - i,
{
    let s = b.push(c);
    if i == b.len() {
        assert(s[i as int] == c);
        if let Some(d) = decimal_digit(c) {
            let next = if negative { acc * 10 - d } else { acc * 10 + d };
            if i32::MIN <= next <= i32::MAX {
                assert(parse_digits_i32(s, i + 1, next, negative) == Ok::<i32, IntErrorKind>(next as i32));
            }
        }
    } else {
        assert(s[i as int] == b[i as int]);
        if let Some(d) = decimal_digit(b[i as int]) {
            let next = if negative { acc * 10 - d } else { acc * 10 + d };
            if i32::MIN <= next <= i32::MAX {
                lemma_parse_snoc(b, c, i + 1, next, negative);
            }
        }
    }
}

/// Reading from after a prefix is reading the text that follows it.
proof fn lemma_parse_shift(p: Seq<u8>, b: Seq<u8>, j: nat, acc: int, negative: bool)
    requires
        j <= b.len(),
    ensures
        parse_digits_i32(p + b, p.len() + j, acc, negative) == parse_digits_i32(b, j, acc, negative),
    decreases b.len() - j,
{
    if j < b.len() {
        assert((p + b)[(p.len() + j) as int] == b[j as int]);
        if let Some(d) = decimal_digit(b[j as int]) {
            let next = if negative { acc * 10 - d } else { acc * 10 + d };
            lemma_parse_shift(p, b, j + 1, next, negative);
        }
    }
}

/// The decimal digits of a number are digit characters.
proof fn lemma_digits_are_digits(n: nat)
    ensures
        digits(n, 10).len() > 0,
        forall|i: int| 0 <= i < digits(n, 10).len() ==> 0x30 <= #[trigger] digits(n, 10)[i] <= 0x39,
    decreases n,
{
    if n >= 10 {
        lemma_digits_are_digits(n / 10);
    }
}

/// The decimal digits of a number that fits read back as the number, or as
/// its negation where a minus sign was read.
proof fn lemma_parse_digits_of(n: nat, negative: bool)
    requires
        if negative { n <= 0x8000_0000 } else { n <= 0x7fff_ffff },
    ensures
        parse_digits_i32(digits(n, 10), 0, 0, negative) == Ok::<i32, IntErrorKind>(
            (if negative { -n } else { n as int }) as i32,
        ),
    decreases n,
{
    if n < 10 {
        let b = digits(n, 10);
        assert(b == seq![digit_byte(n % 10)]);
        assert(n % 10 == n);
        assert(decimal_digit(b[0]) == Some(n));
        let next: int = if negative { 0 - n } else { n as int };
        assert(parse_digits_i32(b, 1, next, negative) == Ok::<i32, IntErrorKind>(next as i32));
    } else {
        let q = n / 10;
        let r = n % 10;
        assert(n == 10 * q + r);
        lemma_parse_digits_of(q, negative);
        let b = digits(q, 10);
        lemma_digits_are_digits(q);
        assert(digits(n, 10) == b.push(digit_byte(r)));
        lemma_parse_snoc(b, digit_byte(r), 0, 0, negative);
        assert(decimal_digit(digit_byte(r)) == Some(r));
    }
}

/// The decimal text of an `i32` reads back as it.
pub proof fn lemma_decimal_parses_back(v: i32)
    ensures
        spec_parse_i32(encode_utf8(signed_decimal(v as int))) == Ok::<i32, IntErrorKind>(v),
{
    if v >= 0 {
        let d = digits(v as nat, 10);
        lemma_digits_are_digits(v as nat);
        assert(is_ascii_bytes(d));
        lemma_ascii_encode(d);
        lemma_parse_digits_of(v as nat, false);
    } else {
        let n: nat = (-(v as int)) as nat;
        let d = digits(n, 10);
        lemma_digits_are_digits(n);
        let b = seq![0x2du8] + d;
        assert(is_ascii_bytes(b)) by {
            assert forall|i: int| 0 <= i < b.len() implies #[trigger] b[i] < 128 by {
                if i > 0 {
                    assert(b[i] == d[i - 1]);
                }
            }
        }
        lemma_ascii_encode(b);
        assert(ascii_chars(b) =~= signed_decimal(v as int));
        lemma_parse_digits_of(n, true);
        lemma_parse_shift(seq![0x2du8], d, 0, 0, true);
        assert(b[0] == 0x2d);
    }
}

pub fn parse_u8(s: &[u8]) -> (res: Result<u8, IntErrorKind>)
    ensures
        res == spec_parse_u8(s@),
{
    if s.len() == 0 {
        return Err(IntErrorKind::Empty);
    }
    if (s[0] == 0x2b || s[0] == 0x2d) && s.len() == 1 {
        return Err(IntErrorKind::InvalidDigit);
    }
    let start: usize = if s[0] == 0x2b { 1 } else { 0 };
    let mut i: usize = start;
    let mut acc: u32 = 0;
    while i < s.len()
        invariant
            start <= i <= s@.len(),
            acc <= 255,
            spec_parse_u8(s@) == parse_digits(s@, i as nat, acc as nat),
        decreases s.len() - i,
    {
        let c = s[i];
        if c < 0x30 || c > 0x39 {
            return Err(IntErrorKind::InvalidDigit);
        }
        let next = acc * 10 + (c - 0x30) as u32;
        if next > 255 {
            return Err(IntErrorKind::PosOverflow);
        }
        acc = next;
        i = i + 1;
    }
    Ok(acc as u8)
}

/// The pieces of text between separators, as `str::split` gives them.
pub open spec fn split_on(s: Seq<u8>, sep: u8) -> Seq<Seq<u8>>
    decreases s.len(),
{
    if s.len() == 0 {
        seq![Seq::empty()]
    } else {
        let prev = split_on(s.drop_last(), sep);
        if s.last() == sep {
            prev.push(Seq::empty())
        } else {
            prev.update(prev.len() - 1, prev.last().push(s.last()))
        }
    }
}

proof fn lemma_split_on_nonempty(s: Seq<u8>, sep: u8)
    ensures
        split_on(s, sep).len() >= 1,
    decreases s.len(),
{
    if s.len() > 0 {
        lemma_split_on_nonempty(s.drop_last(), sep);
    }
}

/// A version could not be read from text: a segment is not a number below
/// 256, or there are not exactly three segments (their values are given).
#[derive(Debug)]
pub enum InvalidGameVersionStr {
    InvalidSegment(String, IntErrorKind),
    IncorrectSegmentNumber(usize, Vec<u8>),
}

/// The values of the segments, or the index of the first segment that is not
/// a number and why.
pub open spec fn spec_parse_segments(segs: Seq<Seq<u8>>) -> Result<Seq<u8>, (int, IntErrorKind)>
    decreases segs.len(),
{
    if segs.len() == 0 {
        Ok(Seq::empty())
    } else {
        match spec_parse_segments(segs.drop_last()) {
            Err(e) => Err(e),
            Ok(vals) => match spec_parse_u8(segs.last()) {
                Ok(v) => Ok(vals.push(v)),
                Err(k) => Err((segs.len() - 1, k)),
            },
        }
    }
}

fn split_dots(b: &[u8]) -> (segs: Vec<Vec<u8>>)
    ensures
        segs@.map_values(|v: Vec<u8>| v@) == split_on(b@, 0x2e),
{
    let mut segs: Vec<Vec<u8>> = Vec::new();
    let mut cur: Vec<u8> = Vec::new();
    let mut i: usize = 0;
    proof {
        assert(b@.take(0) =~= Seq::<u8>::empty());
        assert(segs@.map_values(|v: Vec<u8>| v@).push(cur@) =~= seq![Seq::<u8>::empty()]);
    }
    while i < b.len()
        invariant
            i <= b@.len(),
            segs@.map_values(|v: Vec<u8>| v@).push(cur@) == split_on(b@.take(i as int), 0x2e),
        decreases b.len() - i,
    {
        let ghost before = segs@.map_values(|v: Vec<u8>| v@).push(cur@);
        proof {
            assert(b@.take(i + 1).drop_last() =~= b@.take(i as int));
            assert(b@.take(i + 1).last() == b@[i as int]);
        }
        if b[i] == 0x2e {
            let done = cur;
            segs.push(done);
            cur = Vec::new();
            assert(segs@.map_values(|v: Vec<u8>| v@).push(cur@) =~= before.push(Seq::<u8>::empty()));
        } else {
            cur.push(b[i]);
            assert(segs@.map_values(|v: Vec<u8>| v@).push(cur@) =~= before.update(
                before.len() - 1,
                before.last().push(b@[i as int]),
            ));
        }
        i = i + 1;
    }
    let ghost before = segs@.map_values(|v: Vec<u8>| v@).push(cur@);
    segs.push(cur);
    assert(b@.take(b@.len() as int) =~= b@);
    assert(segs@.map_values(|v: Vec<u8>| v@) =~= before);
    segs
}

/// `String::from_utf8_lossy` on the bytes of a segment of text, turned into
/// an owned string: where the bytes are valid UTF-8 (as pieces of valid text
/// split at an ASCII byte are), the text they encode. Nothing is stated of
/// other bytes, which it replaces by U+FFFD.
#[verifier::external_body]
fn segment_string(seg: Vec<u8>) -> (s: String)
    ensures
        valid_utf8(seg@) ==> s@ == decode_utf8(seg@),
{
    String::from_utf8_lossy(&seg).into_owned()
}

/// What reading a version from text yields: each segment read as a `u8`
/// (the first one that fails is the error), then exactly three segments.
pub open spec fn spec_parse_version(s: Seq<u8>) -> Option<u32> {
    let segs = split_on(s, 0x2e);
    match spec_parse_segments(segs) {
        Ok(vals) => if vals.len() == 3 {
            Some(spec_from_segments(vals[0], vals[1], vals[2]))
        } else {
            None
        },
        Err(_) => None,
    }
}

impl GameVersion {
    /// Reads a version such as "14.3.0" or "14.03.00": three numbers below
    /// 256 separated by dots.
    pub fn from_str(s: &str) -> (res: Result<GameVersion, InvalidGameVersionStr>)
        ensures
            match res {
                Ok(gv) => spec_parse_version(encode_utf8(s@)) == Some(gv.0),
                Err(InvalidGameVersionStr::InvalidSegment(_, k)) => spec_parse_segments(
                    split_on(encode_utf8(s@), 0x2e),
                ) matches Err((_, k2)) && k2 == k,
                Err(InvalidGameVersionStr::IncorrectSegmentNumber(n, vals)) => spec_parse_segments(
                    split_on(encode_utf8(s@), 0x2e),
                ) == Ok::<Seq<u8>, (int, IntErrorKind)>(vals@) && n == vals@.len() && n != 3,
            },
    {
        let b = str_bytes(s);
        let segs = split_dots(b);
        let ghost segv = segs@.map_values(|v: Vec<u8>| v@);
        let mut vals: Vec<u8> = Vec::new();
        let mut i: usize = 0;
        proof {
            assert(segv.take(0) =~= Seq::<Seq<u8>>::empty());
        }
        while i < segs.len()
            invariant
                segv == segs@.map_values(|v: Vec<u8>| v@),
                segv == split_on(b@, 0x2e),
                b@ == encode_utf8(s@),
                i <= segs@.len(),
                spec_parse_segments(segv.take(i as int)) == Ok::<Seq<u8>, (int, IntErrorKind)>(vals@),
            decreases segs.len() - i,
        {
            proof {
                assert(segv.take(i + 1).drop_last() =~= segv.take(i as int));
                assert(segv.take(i + 1).last() == segs@[i as int]@);
            }
            match parse_u8(segs[i].as_slice()) {
                Ok(v) => {
                    vals.push(v);
                },
                Err(k) => {
                    proof {
                        assert(spec_parse_u8(segs@[i as int]@) == Err::<u8, IntErrorKind>(k));
                        assert(spec_parse_segments(segv.take(i + 1)) == Err::<Seq<u8>, (int, IntErrorKind)>(
                            (i as int, k),
                        ));
                        lemma_parse_segments_prefix(segv, i as int + 1);
                        assert(segv == split_on(b@, 0x2e));
                        assert(b@ == encode_utf8(s@));
                        assert(spec_parse_segments(split_on(encode_utf8(s@), 0x2e)) == Err::<Seq<u8>, (int, IntErrorKind)>(
                            (i as int, k),
                        ));
                    }
                    let text = segment_string(segs[i].clone());
                    return Err(InvalidGameVersionStr::InvalidSegment(text, k));
                },
            }
            i = i + 1;
        }
        assert(segv.take(segs@.len() as int) =~= segv);
        if vals.len() != 3 {
            let n = vals.len();
            return Err(InvalidGameVersionStr::IncorrectSegmentNumber(n, vals));
        }
        Ok(GameVersion::from_segments([vals[0], vals[1], vals[2]]))
    }
}

/// Where a prefix of the segments fails, the whole list fails the same way.
proof fn lemma_parse_segments_prefix(segs: Seq<Seq<u8>>, n: int)
    requires
        0 <= n <= segs.len(),
        spec_parse_segments(segs.take(n)) is Err,
    ensures
        spec_parse_segments(segs) == spec_parse_segments(segs.take(n)),
    decreases segs.len() - n,
{
    if n < segs.len() {
        lemma_parse_segments_prefix_step(segs, n);
        lemma_parse_segments_prefix(segs, n + 1);
    } else {
        assert(segs.take(n) =~= segs);
    }
}

proof fn lemma_parse_segments_prefix_step(segs: Seq<Seq<u8>>, n: int)
    requires
        0 <= n < segs.len(),
        spec_parse_segments(segs.take(n)) is Err,
    ensures
        spec_parse_segments(segs.take(n + 1)) == spec_parse_segments(segs.take(n)),
{
    assert(segs.take(n + 1).drop_last() =~= segs.take(n));
}

proof fn lemma_split_no_sep(x: Seq<u8>, sep: u8)
    requires
        forall|i: int| 0 <= i < x.len() ==> x[i] != sep,
    ensures
        split_on(x, sep) == seq![x],
    decreases x.len(),
{
    if x.len() > 0 {
        lemma_split_no_sep(x.drop_last(), sep);
        assert(x.drop_last().push(x.last()) =~= x);
    } else {
        assert(x =~= Seq::<u8>::empty());
    }
}

proof fn lemma_split_append(p: Seq<u8>, x: Seq<u8>, sep: u8)
    requires
        forall|i: int| 0 <= i < x.len() ==> x[i] != sep,
    ensures
        split_on(p + seq![sep] + x, sep) == split_on(p, sep).push(x),
    decreases x.len(),
{
    lemma_split_on_nonempty(p, sep);
    if x.len() == 0 {
        let q = p + seq![sep];
        assert(p + seq![sep] + x =~= q);
        assert(q.drop_last() =~= p);
        assert(x =~= Seq::<u8>::empty());
    } else {
        let y = x.drop_last();
        lemma_split_append(p, y, sep);
        let whole = p + seq![sep] + x;
        assert(whole.drop_last() =~= p + seq![sep] + y);
        assert(whole.last() == x.last());
        assert(y.push(x.last()) =~= x);
    }
}

proof fn lemma_parse_two_digits(n: u8)
    requires
        n < 100,
    ensures
        spec_parse_u8(two_digits(n)) == Ok::<u8, IntErrorKind>(n),
{
    let s = two_digits(n);
    assert(decimal_digit(s[0]) == Some((n / 10) as nat));
    assert(decimal_digit(s[1]) == Some((n % 10) as nat));
    assert(parse_digits(s, 2, n as nat) == Ok::<u8, IntErrorKind>(n));
    assert(parse_digits(s, 1, (n / 10) as nat) == Ok::<u8, IntErrorKind>(n));
}

/// Reading the text of a version gives the version back, for every version
/// below 1000000 (from there on its top digits are not in the text).
pub proof fn lemma_version_text_roundtrip(v: u32)
    requires
        v < 1_000_000,
    ensures
        spec_parse_version(spec_version_text(v)) == Some(v),
{
    let sg = spec_segments(v);
    let d0 = two_digits(sg[0]);
    let d1 = two_digits(sg[1]);
    let d2 = two_digits(sg[2]);
    let dot = 0x2eu8;
    assert(spec_version_text(v) =~= (d0 + seq![dot] + d1) + seq![dot] + d2);
    lemma_split_append(d0 + seq![dot] + d1, d2, dot);
    lemma_split_append(d0, d1, dot);
    lemma_split_no_sep(d0, dot);
    let segs = split_on(spec_version_text(v), dot);
    assert(segs =~= seq![d0, d1, d2]);
    lemma_parse_two_digits(sg[0]);
    lemma_parse_two_digits(sg[1]);
    lemma_parse_two_digits(sg[2]);
    assert(segs.drop_last() =~= seq![d0, d1]);
    assert(segs.drop_last().drop_last() =~= seq![d0]);
    assert(segs.drop_last().drop_last().drop_last() =~= Seq::<Seq<u8>>::empty());
    assert(spec_parse_segments(Seq::<Seq<u8>>::empty()) == Ok::<Seq<u8>, (int, IntErrorKind)>(Seq::empty()));
    assert(seq![d0].drop_last() =~= Seq::<Seq<u8>>::empty());
    assert(seq![d0].last() == d0);
    assert(Seq::<u8>::empty().push(sg[0]) =~= seq![sg[0]]);
    assert(spec_parse_segments(seq![d0]) == Ok::<Seq<u8>, (int, IntErrorKind)>(seq![sg[0]]));
    assert(seq![d0, d1].drop_last() =~= seq![d0]);
    assert(seq![d0, d1].last() == d1);
    assert(seq![sg[0]].push(sg[1]) =~= seq![sg[0], sg[1]]);
    assert(seq![sg[0], sg[1]].push(sg[2]) =~= seq![sg[0], sg[1], sg[2]]);
    assert(segs.last() == d2);
    assert(spec_parse_segments(seq![d0, d1]) == Ok::<Seq<u8>, (int, IntErrorKind)>(seq![sg[0], sg[1]]));
    assert(spec_parse_segments(segs) == Ok::<Seq<u8>, (int, IntErrorKind)>(seq![sg[0], sg[1], sg[2]]));
    lemma_segments_roundtrip(v);
}

} // verus!
