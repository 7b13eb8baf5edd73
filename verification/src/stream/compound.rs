//! Values built out of others: strings, pairs, length-prefixed sequences,
//! maps and fixed marker values.

use vstd::prelude::*;
use vstd::utf8::{valid_utf8, decode_utf8, encode_utf8};
use crate::stream::{
    Codec, Readable, Reader, StreamError, StreamErrorKind, StreamResult, Writable, Writer,
    read_result,
};
use crate::stream::lists::{
    VecArgs, VecArgsLength, all_writable, fixed_items, length_writable, read_result_view,
    read_vec, spec_count, spec_read_vec, spec_write_vec, vec_view, vec_writable, write_vec,
    length_fits, lemma_vec_roundtrip,
};
use crate::text::{str_bytes, string_from_utf8};

verus! {

/* Strings: UTF-8 bytes as a sequence of `u8` */

/// What reading a string yields: its bytes as a sequence, which must be valid UTF-8.
pub open spec fn spec_read_string(length: VecArgsLength, bytes: Seq<u8>) -> Option<(Seq<char>, int)> {
    match spec_read_vec::<u8>(length, bytes) {
        Some((b, k)) => if valid_utf8(b) {
            Some((decode_utf8(b), k))
        } else {
            None
        },
        None => None,
    }
}

/// The bytes written for a string: its UTF-8 bytes as a sequence of `u8`.
pub open spec fn spec_write_string(length: VecArgsLength, s: Seq<char>) -> Seq<u8> {
    spec_write_vec::<u8>(length, encode_utf8(s))
}

pub open spec fn string_view() -> spec_fn(String) -> Seq<char> {
    |s: String| s@
}

/// Reads a string.
pub fn read_string(r: &mut Reader, length: VecArgsLength) -> (res: StreamResult<String>)
    ensures
        read_result_view(*old(r), *final(r), res, spec_read_string(length, old(r).rest()), string_view()),
{
    let pos = r.stream_position();
    let data = read_vec::<u8>(r, VecArgs::new_empty(length))?;
    match string_from_utf8(data) {
        Some(s) => Ok(s),
        None => Err(StreamError::new(StreamErrorKind::InvalidUtf8, pos as u64)),
    }
}

/// Writes a string.
pub fn write_string(w: &mut Writer, s: &str, length: VecArgsLength)
    requires
        length_writable(length, encode_utf8(s@).len() as usize),
    ensures
        final(w).bytes() == old(w).bytes() + spec_write_string(length, s@),
{
    let data = str_bytes(s);
    write_vec::<u8>(w, data, VecArgs::new_empty(length));
}

/// A string reads back as itself when its whole byte count is written.
pub proof fn lemma_string_roundtrip(length: VecArgsLength, s: Seq<char>, rest: Seq<u8>)
    requires
        encode_utf8(s).len() <= usize::MAX,
        length_writable(length, encode_utf8(s).len() as usize),
        length_fits(length, encode_utf8(s).len() as usize),
        spec_count(length, encode_utf8(s).len() as usize) == encode_utf8(s).len(),
    ensures
        spec_read_string(length, spec_write_string(length, s) + rest) == Some(
            (s, spec_write_string(length, s).len() as int),
        ),
{
    let b = encode_utf8(s);
    lemma_vec_roundtrip::<u8>(length, b, rest);
    assert(fixed_items(b, b.len(), 0u8) =~= b);
    vstd::utf8::encode_utf8_valid_utf8(s);
    vstd::utf8::encode_utf8_decode_utf8(s);
}

/// A string preceded by its byte count as an `i32`.
#[derive(Debug, Clone)]
pub struct LengthString(pub String);

impl LengthString {
    pub fn read(r: &mut Reader) -> (res: StreamResult<LengthString>)
        ensures
            read_result_view(
                *old(r),
                *final(r),
                res,
                spec_read_string(VecArgsLength::I32, old(r).rest()),
                |s: LengthString| s.0@,
            ),
    {
        let s = read_string(r, VecArgsLength::I32)?;
        Ok(LengthString(s))
    }

    pub fn write(&self, w: &mut Writer)
        ensures
            final(w).bytes() == old(w).bytes() + spec_write_string(VecArgsLength::I32, self.0@),
    {
        write_string(w, self.0.as_str(), VecArgsLength::I32);
    }
}

/* Pairs */

impl<A: Readable, B: Readable> Readable for (A, B) {
    open spec fn spec_read(bytes: Seq<u8>) -> Option<((A, B), int)> {
        match A::spec_read(bytes) {
            Some((a, k1)) => match B::spec_read(bytes.skip(k1)) {
                Some((b, k2)) => Some(((a, b), k1 + k2)),
                None => None,
            },
            None => None,
        }
    }

    proof fn lemma_read_bounds(bytes: Seq<u8>) {
        A::lemma_read_bounds(bytes);
        if let Some((a, k1)) = A::spec_read(bytes) {
            B::lemma_read_bounds(bytes.skip(k1));
        }
    }

    fn read(r: &mut Reader) -> (res: StreamResult<(A, B)>) {
        let ghost bytes = old(r).rest();
        let a = A::read(r)?;
        proof {
            A::lemma_read_bounds(bytes);
            let k1 = r.position() - old(r).position();
            assert(r.rest() =~= bytes.skip(k1));
        }
        let b = B::read(r)?;
        Ok((a, b))
    }
}

impl<A: Writable, B: Writable> Writable for (A, B) {
    open spec fn spec_write(&self) -> Seq<u8> {
        self.0.spec_write() + self.1.spec_write()
    }

    open spec fn can_write(&self) -> bool {
        self.0.can_write() && self.1.can_write()
    }

    open spec fn spec_default() -> (A, B) {
        (A::spec_default(), B::spec_default())
    }

    fn write(&self, w: &mut Writer) {
        self.0.write(w);
        self.1.write(w);
        assert(w.bytes() =~= old(w).bytes() + self.spec_write());
    }

    fn default_value() -> (d: (A, B)) {
        (A::default_value(), B::default_value())
    }

    proof fn lemma_default_writable() {
        A::lemma_default_writable();
        B::lemma_default_writable();
    }
}

impl<A: Codec, B: Codec> Codec for (A, B) {
    proof fn lemma_roundtrip(v: (A, B), rest: Seq<u8>) {
        let wa = v.0.spec_write();
        let wb = v.1.spec_write();
        A::lemma_roundtrip(v.0, wb + rest);
        B::lemma_roundtrip(v.1, rest);
        assert(v.spec_write() + rest =~= wa + (wb + rest));
        assert((wa + (wb + rest)).skip(wa.len() as int) =~= wb + rest);
    }
}

/* Sequences preceded by their count */

/// A sequence preceded by its count, read and written with the given kind of count.
#[derive(Debug, Clone)]
pub struct LengthVec<T>(pub Vec<T>);

impl<T: Readable> LengthVec<T> {
    pub fn read(r: &mut Reader, length: VecArgsLength) -> (res: StreamResult<LengthVec<T>>)
        ensures
            read_result_view(
                *old(r),
                *final(r),
                res,
                spec_read_vec::<T>(length, old(r).rest()),
                |v: LengthVec<T>| v.0@,
            ),
    {
        let v = read_vec::<T>(r, VecArgs::new_empty(length))?;
        Ok(LengthVec(v))
    }
}

impl<T: Writable> LengthVec<T> {
    pub fn write(&self, w: &mut Writer, length: VecArgsLength)
        requires
            vec_writable(length, self.0@),
        ensures
            final(w).bytes() == old(w).bytes() + spec_write_vec::<T>(length, self.0@),
    {
        write_vec::<T>(w, self.0.as_slice(), VecArgs::new_empty(length));
    }
}

/* Maps: entries with distinct keys */

/// A key that can be told apart from another.
pub trait MapKey: Codec + Copy {
    fn same(&self, other: &Self) -> (b: bool)
        ensures
            b == (*self == *other),
    ;
}

impl MapKey for i8 {
    fn same(&self, other: &Self) -> (b: bool) {
        *self == *other
    }
}

impl MapKey for i16 {
    fn same(&self, other: &Self) -> (b: bool) {
        *self == *other
    }
}

impl MapKey for i32 {
    fn same(&self, other: &Self) -> (b: bool) {
        *self == *other
    }
}

impl MapKey for crate::stream::varint::VariableLengthInt {
    fn same(&self, other: &Self) -> (b: bool) {
        self.0 == other.0
    }
}

/// No key occurs twice.
pub open spec fn distinct_keys<K, V>(s: Seq<(K, V)>) -> bool {
    forall|i: int, j: int| 0 <= i < j < s.len() ==> #[trigger] s[i].0 != #[trigger] s[j].0
}

/// What reading a map yields: its entries, which must have distinct keys.
pub open spec fn spec_read_map<K: Readable, V: Readable>(length: VecArgsLength, bytes: Seq<u8>) -> Option<
    (Seq<(K, V)>, int),
> {
    match spec_read_vec::<(K, V)>(length, bytes) {
        Some((s, k)) => if distinct_keys(s) {
            Some((s, k))
        } else {
            None
        },
        None => None,
    }
}

/// A map preceded by its entry count; its entries are kept in the order
/// they were read, and no key occurs twice.
#[derive(Debug, Clone)]
pub struct HashMapLength<K, V>(pub Vec<(K, V)>);

/// Whether some entry before `i` has the key of entry `i`.
fn key_seen<K: MapKey, V>(entries: &Vec<(K, V)>, i: usize) -> (b: bool)
    requires
        i < entries@.len(),
    ensures
        b == exists|j: int| 0 <= j < i && #[trigger] entries@[j].0 == entries@[i as int].0,
{
    let mut j: usize = 0;
    while j < i
        invariant
            i < entries@.len(),
            0 <= j <= i,
            forall|l: int| 0 <= l < j ==> #[trigger] entries@[l].0 != entries@[i as int].0,
        decreases i - j,
    {
        if entries[j].0.same(&entries[i].0) {
            return true;
        }
        j = j + 1;
    }
    false
}

impl<K: MapKey, V: Codec> HashMapLength<K, V> {
    pub fn new(entries: Vec<(K, V)>) -> (m: Self)
        ensures
            m.0@ == entries@,
    {
        HashMapLength(entries)
    }

    pub fn read(r: &mut Reader, length: VecArgsLength) -> (res: StreamResult<HashMapLength<K, V>>)
        ensures
            read_result_view(
                *old(r),
                *final(r),
                res,
                spec_read_map::<K, V>(length, old(r).rest()),
                |m: HashMapLength<K, V>| m.0@,
            ),
    {
        let pos = r.stream_position();
        let ghost rest0 = old(r).rest();
        let entries = read_vec::<(K, V)>(r, VecArgs::new_empty(length))?;
        let ghost expected = spec_read_vec::<(K, V)>(length, rest0);
        let mut i: usize = 0;
        while i < entries.len()
            invariant
                expected matches Some((s, _)) && s == entries@,
                rest0 == old(r).rest(),
                r.bytes() == old(r).bytes(),
                r.in_bounds(),
                spec_read_map::<K, V>(length, rest0) == (if distinct_keys(entries@) {
                    expected
                } else {
                    None
                }),
                0 <= i <= entries@.len(),
                forall|a: int, b: int| 0 <= a < b < i ==> #[trigger] entries@[a].0 != #[trigger] entries@[b].0,
            decreases entries@.len() - i,
        {
            if key_seen(&entries, i) {
                assert(!distinct_keys(entries@));
                return Err(StreamError::new(StreamErrorKind::DuplicateKey, pos as u64));
            }
            i = i + 1;
        }
        Ok(HashMapLength(entries))
    }

    pub fn write(&self, w: &mut Writer, length: VecArgsLength)
        requires
            vec_writable(length, self.0@),
        ensures
            final(w).bytes() == old(w).bytes() + spec_write_vec::<(K, V)>(length, self.0@),
    {
        write_vec::<(K, V)>(w, self.0.as_slice(), VecArgs::new_empty(length));
    }
}

/* Marker values */

/// An `i32` that must hold a given value, which marks the end of a block.
#[derive(Debug, Copy, Clone)]
pub struct Assertable;

impl Assertable {
    /// Reads the marker; a value other than `expected` is refused.
    pub fn read(r: &mut Reader, expected: i32) -> (res: StreamResult<Assertable>)
        ensures
            final(r).bytes() == old(r).bytes(),
            final(r).in_bounds(),
            match i32::spec_read(old(r).rest()) {
                Some((v, k)) => if v == expected {
                    res is Ok && final(r).position() == old(r).position() + k
                } else {
                    res matches Err(e) && e.kind == StreamErrorKind::AssertionFailed {
                        expected,
                        got: v,
                    }
                },
                None => res is Err,
            },
    {
        let pos = r.stream_position();
        let value = i32::read(r)?;
        if value != expected {
            Err(
                StreamError::new(
                    StreamErrorKind::AssertionFailed { expected, got: value },
                    pos as u64,
                ),
            )
        } else {
            Ok(Assertable)
        }
    }

    pub fn write(&self, w: &mut Writer, expected: i32)
        ensures
            final(w).bytes() == old(w).bytes() + expected.spec_write(),
    {
        expected.write(w);
    }
}

impl crate::stream::modeled::ModelCodec for LengthString {
    type M = Seq<char>;

    open spec fn model(&self) -> Seq<char> {
        self.0@
    }

    open spec fn spec_read_model(bytes: Seq<u8>) -> Option<(Seq<char>, int)> {
        spec_read_string(VecArgsLength::I32, bytes)
    }

    open spec fn spec_write_model(m: Seq<char>) -> Seq<u8> {
        spec_write_string(VecArgsLength::I32, m)
    }

    open spec fn default_model() -> Seq<char> {
        Seq::empty()
    }

    proof fn lemma_read_bounds(bytes: Seq<u8>) {
        crate::stream::lists::lemma_vec_reader_bounded::<u8>(VecArgsLength::I32);
        assert(crate::stream::lists::vec_reader::<u8>(VecArgsLength::I32)(bytes) == spec_read_vec::<u8>(
            VecArgsLength::I32,
            bytes,
        ));
    }

    fn read_item(r: &mut Reader) -> (res: StreamResult<Self>) {
        LengthString::read(r)
    }

    fn write_item(&self, w: &mut Writer) {
        self.write(w);
    }

    fn default_item() -> (d: Self) {
        LengthString(String::new())
    }
}

impl crate::stream::modeled::ModelRoundtrip for LengthString {
    open spec fn fits(m: Seq<char>) -> bool {
        encode_utf8(m).len() <= i32::MAX
    }

    proof fn lemma_default_fits() {
        assert(encode_utf8(Seq::<char>::empty()).len() == 0);
    }

    proof fn lemma_model_roundtrip(m: Seq<char>, rest: Seq<u8>) {
        lemma_string_roundtrip(VecArgsLength::I32, m, rest);
    }
}

} // verus!
