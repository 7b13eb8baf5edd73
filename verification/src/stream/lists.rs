//! Sequences of values: how many there are (a fixed count, or a count read
//! from the data), the values one after the other, and what is written when
//! a fixed count and the values at hand differ.

use vstd::prelude::*;
use crate::stream::{
    Codec, Readable, Reader, StreamError, StreamErrorKind, StreamResult, Writable, Writer,
};
use crate::stream::varint::{VariableLengthInt, varint_limit};

verus! {

/* Lists in general */

/// Reads `n` values one after the other, each with `f`.
pub open spec fn read_list<A>(
    f: spec_fn(Seq<u8>) -> Option<(A, int)>,
    bytes: Seq<u8>,
    n: nat,
) -> Option<(Seq<A>, int)>
    decreases n,
{
    if n == 0 {
        Some((Seq::empty(), 0))
    } else {
        match f(bytes) {
            None => None,
            Some((v, k)) => prepend(seq![v], k, read_list(f, bytes.skip(k), (n - 1) as nat)),
        }
    }
}

/// What was read before, put in front of what is read after.
pub open spec fn prepend<A>(prefix: Seq<A>, c: int, after: Option<(Seq<A>, int)>) -> Option<
    (Seq<A>, int),
> {
    match after {
        Some((vs, k)) => Some((prefix + vs, c + k)),
        None => None,
    }
}

/// Writes the values one after the other, each with `g`.
pub open spec fn write_list<A>(g: spec_fn(A) -> Seq<u8>, s: Seq<A>) -> Seq<u8>
    decreases s.len(),
{
    if s.len() == 0 {
        Seq::empty()
    } else {
        write_list(g, s.drop_last()) + g(s.last())
    }
}

/// A reader that only ever takes bytes that are there.
pub open spec fn bounded<A>(f: spec_fn(Seq<u8>) -> Option<(A, int)>) -> bool {
    forall|b: Seq<u8>| (#[trigger] f(b) matches Some((_, k)) ==> 0 <= k <= b.len())
}

/// The first `n` values, or all of them followed by copies of `d` up to `n`.
pub open spec fn fixed_items<A>(s: Seq<A>, n: nat, d: A) -> Seq<A> {
    if n <= s.len() {
        s.take(n as int)
    } else {
        s + Seq::new((n - s.len()) as nat, |i: int| d)
    }
}

pub proof fn lemma_read_list_bounds<A>(f: spec_fn(Seq<u8>) -> Option<(A, int)>, bytes: Seq<u8>, n: nat)
    requires
        bounded(f),
    ensures
        read_list(f, bytes, n) matches Some((vs, k)) ==> 0 <= k <= bytes.len() && vs.len() == n,
    decreases n,
{
    if n > 0 {
        if let Some((v, k)) = f(bytes) {
            lemma_read_list_bounds(f, bytes.skip(k), (n - 1) as nat);
        }
    }
}

/// One more value read at offset `c` of `bytes`.
pub proof fn lemma_read_list_step<A>(
    f: spec_fn(Seq<u8>) -> Option<(A, int)>,
    bytes: Seq<u8>,
    prefix: Seq<A>,
    c: int,
    m: nat,
    v: A,
    k: int,
)
    requires
        bounded(f),
        0 <= c <= bytes.len(),
        m > 0,
        f(bytes.skip(c)) == Some((v, k)),
    ensures
        0 <= k,
        c + k <= bytes.len(),
        bytes.skip(c).skip(k) == bytes.skip(c + k),
        prepend(prefix, c, read_list(f, bytes.skip(c), m)) == prepend(
            prefix.push(v),
            c + k,
            read_list(f, bytes.skip(c + k), (m - 1) as nat),
        ),
{
    assert(bytes.skip(c).skip(k) =~= bytes.skip(c + k));
    match read_list(f, bytes.skip(c + k), (m - 1) as nat) {
        Some((vs, k2)) => {
            assert(prefix + (seq![v] + vs) =~= prefix.push(v) + vs);
        },
        None => {},
    }
}

pub proof fn lemma_write_list_push<A>(g: spec_fn(A) -> Seq<u8>, s: Seq<A>, a: A)
    ensures
        write_list(g, s.push(a)) == write_list(g, s) + g(a),
{
    assert(s.push(a).drop_last() =~= s);
}

pub proof fn lemma_write_list_front<A>(g: spec_fn(A) -> Seq<u8>, a: A, s: Seq<A>)
    ensures
        write_list(g, seq![a] + s) == g(a) + write_list(g, s),
    decreases s.len(),
{
    if s.len() == 0 {
        assert(seq![a] + s =~= seq![a]);
        assert(seq![a].drop_last() =~= Seq::<A>::empty());
        assert(seq![a].last() == a);
        assert(write_list(g, Seq::<A>::empty()) =~= Seq::<u8>::empty());
        assert(write_list(g, seq![a]) =~= write_list(g, Seq::<A>::empty()) + g(a));
        assert(g(a) + write_list(g, s) =~= write_list(g, seq![a]));
    } else {
        let t = s.drop_last();
        lemma_write_list_front(g, a, t);
        assert((seq![a] + s).drop_last() =~= seq![a] + t);
        assert(g(a) + write_list(g, t) + g(s.last()) =~= g(a) + (write_list(g, t) + g(s.last())));
    }
}

/// Reading what was written: each value read back from what was written for
/// it is `h` of that value, so the whole list reads back as the values under `h`.
pub proof fn lemma_list_roundtrip<A, B>(
    f: spec_fn(Seq<u8>) -> Option<(B, int)>,
    g: spec_fn(A) -> Seq<u8>,
    h: spec_fn(A) -> B,
    s: Seq<A>,
    rest: Seq<u8>,
)
    requires
        forall|i: int, r: Seq<u8>|
            0 <= i < s.len() ==> #[trigger] f(g(s[i]) + r) == Some((h(s[i]), g(s[i]).len() as int)),
    ensures
        read_list(f, write_list(g, s) + rest, s.len()) == Some(
            (s.map_values(h), write_list(g, s).len() as int),
        ),
    decreases s.len(),
{
    if s.len() == 0 {
        assert(s.map_values(h) =~= Seq::<B>::empty());
    } else {
        let a = s[0];
        let t = s.drop_first();
        assert(s =~= seq![a] + t);
        lemma_write_list_front(g, a, t);
        assert forall|i: int, r: Seq<u8>|
            0 <= i < t.len() implies #[trigger] f(g(t[i]) + r) == Some(
                (h(t[i]), g(t[i]).len() as int),
            ) by {
            assert(t[i] == s[i + 1]);
            assert(f(g(s[i + 1]) + r) == Some((h(s[i + 1]), g(s[i + 1]).len() as int)));
        }
        lemma_list_roundtrip(f, g, h, t, rest);
        let bytes = write_list(g, s) + rest;
        let tail = write_list(g, t) + rest;
        assert(bytes =~= g(a) + tail);
        assert(f(g(s[0]) + tail) == Some((h(s[0]), g(s[0]).len() as int)));
        assert(bytes.skip(g(a).len() as int) =~= tail);
        assert(seq![h(a)] + t.map_values(h) =~= s.map_values(h));
    }
}

/* Counts */

/// How the number of values is known: fixed, or read from the data as an
/// integer of the given kind in front of the values.
#[derive(Debug, Copy, Clone, PartialEq, Eq, Structural)]
pub enum VecArgsLength {
    Fixed(usize),
    I32,
    I16,
    I8,
    VariableLengthInt,
}

/// What reading a count yields: a negative count is refused.
pub open spec fn spec_read_length(kind: VecArgsLength, bytes: Seq<u8>) -> Option<(usize, int)> {
    match kind {
        VecArgsLength::Fixed(f) => Some((f, 0)),
        VecArgsLength::I32 => match i32::spec_read(bytes) {
            Some((x, k)) => if x >= 0 {
                Some((x as usize, k))
            } else {
                None
            },
            None => None,
        },
        VecArgsLength::I16 => match i16::spec_read(bytes) {
            Some((x, k)) => if x >= 0 {
                Some((x as usize, k))
            } else {
                None
            },
            None => None,
        },
        VecArgsLength::I8 => match i8::spec_read(bytes) {
            Some((x, k)) => if x >= 0 {
                Some((x as usize, k))
            } else {
                None
            },
            None => None,
        },
        VecArgsLength::VariableLengthInt => match VariableLengthInt::spec_read(bytes) {
            Some((v, k)) => Some((v.0 as usize, k)),
            None => None,
        },
    }
}

/// The bytes written for a count of `len`: nothing for a fixed count, else
/// `len` cast to the integer kind (which wraps where it does not fit).
pub open spec fn spec_write_length(kind: VecArgsLength, len: usize) -> Seq<u8> {
    match kind {
        VecArgsLength::Fixed(_) => Seq::empty(),
        VecArgsLength::I32 => (len as i32).spec_write(),
        VecArgsLength::I16 => (len as i16).spec_write(),
        VecArgsLength::I8 => (len as i8).spec_write(),
        VecArgsLength::VariableLengthInt => VariableLengthInt(len as u32).spec_write(),
    }
}

/// How many values are written after the count: the fixed number, or `len`.
pub open spec fn spec_count(kind: VecArgsLength, len: usize) -> usize {
    match kind {
        VecArgsLength::Fixed(f) => f,
        _ => len,
    }
}

/// Whether a count of `len` can be written: a variable-length count must stay below 2^28.
pub open spec fn length_writable(kind: VecArgsLength, len: usize) -> bool {
    kind is VariableLengthInt ==> (len as u32) < varint_limit()
}

/// Whether a count of `len` reads back as `len`: it fits the integer kind.
pub open spec fn length_fits(kind: VecArgsLength, len: usize) -> bool {
    match kind {
        VecArgsLength::Fixed(f) => true,
        VecArgsLength::I32 => len <= i32::MAX,
        VecArgsLength::I16 => len <= i16::MAX,
        VecArgsLength::I8 => len <= i8::MAX,
        VecArgsLength::VariableLengthInt => len < varint_limit(),
    }
}

pub proof fn lemma_length_bounds(kind: VecArgsLength, bytes: Seq<u8>)
    ensures
        spec_read_length(kind, bytes) matches Some((_, k)) ==> 0 <= k <= bytes.len(),
{
    i32::lemma_read_bounds(bytes);
    i16::lemma_read_bounds(bytes);
    i8::lemma_read_bounds(bytes);
    VariableLengthInt::lemma_read_bounds(bytes);
}

/// A count that fits its kind reads back as itself.
pub proof fn lemma_length_roundtrip(kind: VecArgsLength, len: usize, rest: Seq<u8>)
    requires
        length_fits(kind, len),
    ensures
        spec_read_length(kind, spec_write_length(kind, len) + rest) == Some(
            (spec_count(kind, len), spec_write_length(kind, len).len() as int),
        ),
{
    match kind {
        VecArgsLength::Fixed(f) => {
            assert(Seq::<u8>::empty() + rest =~= rest);
        },
        VecArgsLength::I32 => {
            i32::lemma_roundtrip(len as i32, rest);
        },
        VecArgsLength::I16 => {
            i16::lemma_roundtrip(len as i16, rest);
        },
        VecArgsLength::I8 => {
            i8::lemma_roundtrip(len as i8, rest);
        },
        VecArgsLength::VariableLengthInt => {
            VariableLengthInt::lemma_roundtrip(VariableLengthInt(len as u32), rest);
        },
    }
}

impl VecArgsLength {
    /// Reads the count.
    pub fn read(&self, r: &mut Reader) -> (res: StreamResult<usize>)
        ensures
            crate::stream::read_result(*old(r), *final(r), res, spec_read_length(*self, old(r).rest())),
    {
        let _ = r.remaining();
        match self {
            VecArgsLength::Fixed(s) => Ok(*s),
            VecArgsLength::I32 => {
                let pos = r.stream_position();
                let x = i32::read(r)?;
                if x < 0 {
                    Err(StreamError::new(StreamErrorKind::NegativeLength, pos as u64))
                } else {
                    Ok(x as usize)
                }
            },
            VecArgsLength::I16 => {
                let pos = r.stream_position();
                let x = i16::read(r)?;
                if x < 0 {
                    Err(StreamError::new(StreamErrorKind::NegativeLength, pos as u64))
                } else {
                    Ok(x as usize)
                }
            },
            VecArgsLength::I8 => {
                let pos = r.stream_position();
                let x = i8::read(r)?;
                if x < 0 {
                    Err(StreamError::new(StreamErrorKind::NegativeLength, pos as u64))
                } else {
                    Ok(x as usize)
                }
            },
            VecArgsLength::VariableLengthInt => {
                let v = VariableLengthInt::read(r)?;
                Ok(v.0 as usize)
            },
        }
    }

    /// Writes the count for `length` values and returns how many values
    /// follow it.
    pub fn write(&self, w: &mut Writer, length: usize) -> (count: usize)
        requires
            length_writable(*self, length),
        ensures
            final(w).bytes() == old(w).bytes() + spec_write_length(*self, length),
            count == spec_count(*self, length),
    {
        match self {
            VecArgsLength::Fixed(fix) => {
                assert(w.bytes() + Seq::<u8>::empty() =~= w.bytes());
                *fix
            },
            VecArgsLength::I32 => {
                (length as i32).write(w);
                length
            },
            VecArgsLength::I16 => {
                (length as i16).write(w);
                length
            },
            VecArgsLength::I8 => {
                (length as i8).write(w);
                length
            },
            VecArgsLength::VariableLengthInt => {
                VariableLengthInt(length as u32).write(w);
                length
            },
        }
    }
}

/// How a sequence is read and written: the kind of its count, and the
/// arguments of its values.
#[derive(Debug, Copy, Clone)]
pub struct VecArgs<T> {
    pub length: VecArgsLength,
    pub item: T,
}

impl VecArgs<()> {
    pub fn new_empty(length: VecArgsLength) -> (a: VecArgs<()>)
        ensures
            a.length == length,
    {
        VecArgs { length, item: () }
    }

    pub fn new_empty_fixed(length: usize) -> (a: VecArgs<()>)
        ensures
            a.length == VecArgsLength::Fixed(length),
    {
        Self::new_empty(VecArgsLength::Fixed(length))
    }

    pub fn new_empty_i32() -> (a: VecArgs<()>)
        ensures
            a.length == VecArgsLength::I32,
    {
        Self::new_empty(VecArgsLength::I32)
    }

    pub fn new_empty_i16() -> (a: VecArgs<()>)
        ensures
            a.length == VecArgsLength::I16,
    {
        Self::new_empty(VecArgsLength::I16)
    }

    pub fn new_empty_i8() -> (a: VecArgs<()>)
        ensures
            a.length == VecArgsLength::I8,
    {
        Self::new_empty(VecArgsLength::I8)
    }

    pub fn new_empty_variable() -> (a: VecArgs<()>)
        ensures
            a.length == VecArgsLength::VariableLengthInt,
    {
        Self::new_empty(VecArgsLength::VariableLengthInt)
    }
}


/* Sequences of values that read and write themselves */

/// A read against what the format says of the unread bytes, for results
/// that are compared by their view.
pub open spec fn read_result_view<T, V>(
    before: Reader,
    after: Reader,
    res: StreamResult<T>,
    expected: Option<(V, int)>,
    view: spec_fn(T) -> V,
) -> bool {
    &&& after.bytes() == before.bytes()
    &&& after.in_bounds()
    &&& match expected {
        Some((v, n)) => res matches Ok(x) && view(x) == v && after.position() == before.position()
            + n,
        None => res is Err,
    }
}

pub open spec fn item_reader<T: Readable>() -> spec_fn(Seq<u8>) -> Option<(T, int)> {
    |b: Seq<u8>| T::spec_read(b)
}

pub open spec fn item_writer<T: Writable>() -> spec_fn(T) -> Seq<u8> {
    |v: T| v.spec_write()
}

pub open spec fn vec_view<T>() -> spec_fn(Vec<T>) -> Seq<T> {
    |v: Vec<T>| v@
}

pub open spec fn all_writable<T: Writable>(s: Seq<T>) -> bool {
    forall|i: int| 0 <= i < s.len() ==> #[trigger] s[i].can_write()
}

pub proof fn lemma_item_reader_bounded<T: Readable>()
    ensures
        bounded(item_reader::<T>()),
{
    assert forall|b: Seq<u8>|
        (#[trigger] item_reader::<T>()(b) matches Some((_, k)) ==> 0 <= k <= b.len()) by {
        T::lemma_read_bounds(b);
    }
}

/// Reads `n` values one after the other.
pub fn read_items<T: Readable>(r: &mut Reader, n: usize) -> (res: StreamResult<Vec<T>>)
    ensures
        read_result_view(
            *old(r),
            *final(r),
            res,
            read_list(item_reader::<T>(), old(r).rest(), n as nat),
            vec_view::<T>(),
        ),
{
    let ghost start = *old(r);
    let ghost bytes = old(r).rest();
    let ghost f = item_reader::<T>();
    let _ = r.remaining();
    proof {
        lemma_item_reader_bounded::<T>();
        assert(bytes.skip(0) =~= bytes);
        if let Some((vs, k)) = read_list(f, bytes, n as nat) {
            assert(Seq::<T>::empty() + vs =~= vs);
        }
    }
    let mut items: Vec<T> = Vec::new();
    let mut i: usize = 0;
    let ghost mut c: int = 0;
    while i < n
        invariant
            start == *old(r),
            bytes == start.rest(),
            f == item_reader::<T>(),
            bounded(f),
            0 <= i <= n,
            0 <= c <= bytes.len(),
            r.bytes() == start.bytes(),
            r.in_bounds(),
            r.position() == start.position() + c,
            r.rest() == bytes.skip(c),
            read_list(f, bytes, n as nat) == prepend(items@, c, read_list(
                f,
                bytes.skip(c),
                (n - i) as nat,
            )),
        decreases n - i,
    {
        let ghost before = *r;
        let v = match T::read(r) {
            Ok(v) => v,
            Err(e) => {
                return Err(e);
            },
        };
        proof {
            let k = r.position() - before.position();
            assert(f(bytes.skip(c)) == Some((v, k)));
            lemma_read_list_step(f, bytes, items@, c, (n - i) as nat, v, k);
            c = c + k;
        }
        items.push(v);
        i = i + 1;
    }
    proof {
        assert(items@ + Seq::<T>::empty() =~= items@);
    }
    Ok(items)
}

/// Writes the values one after the other.
pub fn write_items<T: Writable>(w: &mut Writer, items: &[T])
    requires
        all_writable(items@),
    ensures
        final(w).bytes() == old(w).bytes() + write_list(item_writer::<T>(), items@),
{
    let ghost g = item_writer::<T>();
    let mut i: usize = 0;
    proof {
        assert(items@.take(0) =~= Seq::<T>::empty());
        assert(old(w).bytes() + Seq::<u8>::empty() =~= old(w).bytes());
    }
    while i < items.len()
        invariant
            g == item_writer::<T>(),
            all_writable(items@),
            0 <= i <= items@.len(),
            w.bytes() == old(w).bytes() + write_list(g, items@.take(i as int)),
        decreases items@.len() - i,
    {
        let ghost before = w.bytes();
        items[i].write(w);
        proof {
            lemma_write_list_push(g, items@.take(i as int), items@[i as int]);
            assert(items@.take(i as int).push(items@[i as int]) =~= items@.take(i + 1));
            assert(before + items@[i as int].spec_write() =~= old(w).bytes() + write_list(
                g,
                items@.take(i + 1),
            ));
        }
        i = i + 1;
    }
    assert(items@.take(items@.len() as int) =~= items@);
}

/// Writes `n` values: the first `n` of `items`, then defaults where `items`
/// runs out.
pub fn write_fixed<T: Writable>(w: &mut Writer, items: &[T], n: usize)
    requires
        all_writable(items@),
    ensures
        final(w).bytes() == old(w).bytes() + write_list(
            item_writer::<T>(),
            fixed_items(items@, n as nat, T::spec_default()),
        ),
{
    let ghost g = item_writer::<T>();
    let ghost t = fixed_items(items@, n as nat, T::spec_default());
    let mut i: usize = 0;
    proof {
        assert(t.take(0) =~= Seq::<T>::empty());
        assert(old(w).bytes() + Seq::<u8>::empty() =~= old(w).bytes());
    }
    while i < n
        invariant
            g == item_writer::<T>(),
            t == fixed_items(items@, n as nat, T::spec_default()),
            t.len() == n,
            all_writable(items@),
            0 <= i <= n,
            w.bytes() == old(w).bytes() + write_list(g, t.take(i as int)),
        decreases n - i,
    {
        let ghost before = w.bytes();
        if i < items.len() {
            items[i].write(w);
            assert(t[i as int] == items@[i as int]);
        } else {
            let d = T::default_value();
            d.write(w);
            assert(t[i as int] == d);
        }
        proof {
            lemma_write_list_push(g, t.take(i as int), t[i as int]);
            assert(t.take(i as int).push(t[i as int]) =~= t.take(i + 1));
        }
        i = i + 1;
    }
    assert(t.take(n as int) =~= t);
}

/// What reading a sequence yields: the count, then that many values.
pub open spec fn spec_read_vec<T: Readable>(length: VecArgsLength, bytes: Seq<u8>) -> Option<
    (Seq<T>, int),
> {
    match spec_read_length(length, bytes) {
        Some((n, k)) => prepend(Seq::empty(), k, read_list(item_reader::<T>(), bytes.skip(k), n as nat)),
        None => None,
    }
}

/// The bytes written for a sequence: the count, then the values, cut or
/// padded with defaults to a fixed count.
pub open spec fn spec_write_vec<T: Writable>(length: VecArgsLength, s: Seq<T>) -> Seq<u8> {
    spec_write_length(length, s.len() as usize) + write_list(
        item_writer::<T>(),
        fixed_items(s, spec_count(length, s.len() as usize) as nat, T::spec_default()),
    )
}

pub open spec fn vec_writable<T: Writable>(length: VecArgsLength, s: Seq<T>) -> bool {
    &&& length_writable(length, s.len() as usize)
    &&& all_writable(s)
}

pub open spec fn vec_reader<T: Readable>(length: VecArgsLength) -> spec_fn(Seq<u8>) -> Option<(Seq<T>, int)> {
    |b: Seq<u8>| spec_read_vec::<T>(length, b)
}

pub open spec fn vec_writer<T: Writable>(length: VecArgsLength) -> spec_fn(Seq<T>) -> Seq<u8> {
    |s: Seq<T>| spec_write_vec::<T>(length, s)
}

pub proof fn lemma_vec_reader_bounded<T: Readable>(length: VecArgsLength)
    ensures
        bounded(vec_reader::<T>(length)),
{
    lemma_item_reader_bounded::<T>();
    assert forall|b: Seq<u8>|
        (#[trigger] vec_reader::<T>(length)(b) matches Some((_, k)) ==> 0 <= k <= b.len()) by {
        lemma_length_bounds(length, b);
        if let Some((n, k1)) = spec_read_length(length, b) {
            lemma_read_list_bounds(item_reader::<T>(), b.skip(k1), n as nat);
        }
    }
}

/// Reads a sequence: its count, then the values.
pub fn read_vec<T: Readable>(r: &mut Reader, args: VecArgs<()>) -> (res: StreamResult<Vec<T>>)
    ensures
        read_result_view(
            *old(r),
            *final(r),
            res,
            spec_read_vec::<T>(args.length, old(r).rest()),
            vec_view::<T>(),
        ),
{
    let ghost bytes = old(r).rest();
    let n = args.length.read(r)?;
    let ghost mid = *r;
    proof {
        lemma_length_bounds(args.length, bytes);
        let k1 = mid.position() - old(r).position();
        assert(mid.rest() =~= bytes.skip(k1));
    }
    let items = read_items::<T>(r, n)?;
    proof {
        assert(Seq::<T>::empty() + items@ =~= items@);
    }
    Ok(items)
}

/// Writes a sequence: its count, then the values.
pub fn write_vec<T: Writable>(w: &mut Writer, items: &[T], args: VecArgs<()>)
    requires
        vec_writable(args.length, items@),
    ensures
        final(w).bytes() == old(w).bytes() + spec_write_vec::<T>(args.length, items@),
{
    let count = args.length.write(w, items.len());
    write_fixed(w, items, count);
    assert(old(w).bytes() + spec_write_length(args.length, items@.len() as usize) + write_list(
        item_writer::<T>(),
        fixed_items(items@, count as nat, T::spec_default()),
    ) =~= old(w).bytes() + spec_write_vec::<T>(args.length, items@));
}


/// Reading a sequence gives back what was written for it: the values
/// themselves where the count is read from the data and fits its kind, or
/// the values cut or padded with defaults to a fixed count.
pub proof fn lemma_vec_roundtrip<T: Codec>(length: VecArgsLength, s: Seq<T>, rest: Seq<u8>)
    requires
        vec_writable(length, s),
        length_fits(length, s.len() as usize),
        s.len() <= usize::MAX,
    ensures
        spec_read_vec::<T>(length, spec_write_vec::<T>(length, s) + rest) == Some(
            (
                fixed_items(s, spec_count(length, s.len() as usize) as nat, T::spec_default()),
                spec_write_vec::<T>(length, s).len() as int,
            ),
        ),
{
    let len = s.len() as usize;
    let count = spec_count(length, len);
    let t = fixed_items(s, count as nat, T::spec_default());
    let f = item_reader::<T>();
    let g = item_writer::<T>();
    let h = |v: T| v;
    let lb = spec_write_length(length, len);
    let wb = write_list(g, t);
    T::lemma_default_writable();
    assert forall|i: int, r: Seq<u8>| 0 <= i < t.len() implies #[trigger] f(g(t[i]) + r) == Some(
        (h(t[i]), g(t[i]).len() as int),
    ) by {
        if i < s.len() {
            assert(t[i] == s[i]);
        }
        T::lemma_roundtrip(t[i], r);
    }
    lemma_list_roundtrip(f, g, h, t, rest);
    assert(t.map_values(h) =~= t);
    lemma_length_roundtrip(length, len, wb + rest);
    assert(spec_write_vec::<T>(length, s) + rest =~= lb + (wb + rest));
    assert((lb + (wb + rest)).skip(lb.len() as int) =~= wb + rest);
    assert(Seq::<T>::empty() + t =~= t);
}



/// Values written one after the other read back as themselves.
pub proof fn lemma_items_roundtrip<T: Codec>(s: Seq<T>, rest: Seq<u8>)
    requires
        all_writable(s),
    ensures
        read_list(item_reader::<T>(), write_list(item_writer::<T>(), s) + rest, s.len()) == Some(
            (s, write_list(item_writer::<T>(), s).len() as int),
        ),
{
    let f = item_reader::<T>();
    let g = item_writer::<T>();
    let h = |v: T| v;
    assert forall|i: int, r: Seq<u8>| 0 <= i < s.len() implies #[trigger] f(g(s[i]) + r) == Some(
        (h(s[i]), g(s[i]).len() as int),
    ) by {
        T::lemma_roundtrip(s[i], r);
    }
    lemma_list_roundtrip(f, g, h, s, rest);
    assert(s.map_values(h) =~= s);
}

/* Sequences nested 2 deep */

pub open spec fn vec2_view<T>() -> spec_fn(Vec<Vec<T>>) -> Seq<Seq<T>> {
    |v: Vec<Vec<T>>| v@.map_values(vec_view::<T>())
}

/// What reading a sequence of sequences yields: the outer count, then that
/// many inner sequences.
pub open spec fn spec_read_vec2<T: Readable>(l2: VecArgsLength, l1: VecArgsLength, bytes: Seq<u8>) -> Option<
    (Seq<Seq<T>>, int),
> {
    match spec_read_length(l2, bytes) {
        Some((n, k)) => prepend(
            Seq::empty(),
            k,
            read_list(vec_reader::<T>(l1), bytes.skip(k), n as nat),
        ),
        None => None,
    }
}

/// The bytes written for a sequence of sequences: the outer count, then the
/// inner sequences, cut or padded with empty ones to a fixed count.
pub open spec fn spec_write_vec2<T: Writable>(l2: VecArgsLength, l1: VecArgsLength, s: Seq<Seq<T>>) -> Seq<u8> {
    spec_write_length(l2, s.len() as usize) + write_list(
        vec_writer::<T>(l1),
        fixed_items(s, spec_count(l2, s.len() as usize) as nat, Seq::empty()),
    )
}

pub open spec fn vec2_reader_at<T: Readable>(l2: VecArgsLength, l1: VecArgsLength) -> spec_fn(Seq<u8>) -> Option<(Seq<Seq<T>>, int)> {
    |b: Seq<u8>| spec_read_vec2::<T>(l2, l1, b)
}

pub open spec fn vec2_writer_at<T: Writable>(l2: VecArgsLength, l1: VecArgsLength) -> spec_fn(Seq<Seq<T>>) -> Seq<u8> {
    |s: Seq<Seq<T>>| spec_write_vec2::<T>(l2, l1, s)
}

pub open spec fn vec2_writable<T: Writable>(l2: VecArgsLength, l1: VecArgsLength, s: Seq<Seq<T>>) -> bool {
    &&& length_writable(l2, s.len() as usize)
    &&& forall|i: int| 0 <= i < s.len() ==> #[trigger] vec_writable::<T>(l1, s[i])
}

pub proof fn lemma_vec2_reader_bounded<T: Readable>(l2: VecArgsLength, l1: VecArgsLength)
    ensures
        bounded(vec2_reader_at::<T>(l2, l1)),
{
    lemma_vec_reader_bounded::<T>(l1);
    let f = vec_reader::<T>(l1);
    assert forall|b: Seq<u8>|
        (#[trigger] vec2_reader_at::<T>(l2, l1)(b) matches Some((_, k)) ==> 0 <= k <= b.len()) by {
        lemma_length_bounds(l2, b);
        if let Some((m, k1)) = spec_read_length(l2, b) {
            lemma_read_list_bounds(f, b.skip(k1), m as nat);
        }
    }
}

/// Reads a sequence of sequences.
pub fn read_vec2<T: Readable>(r: &mut Reader, args: VecArgs<VecArgs<()>>) -> (res: StreamResult<
    Vec<Vec<T>>,
>)
    ensures
        read_result_view(
            *old(r),
            *final(r),
            res,
            spec_read_vec2::<T>(args.length, args.item.length, old(r).rest()),
            vec2_view::<T>(),
        ),
{
    let ghost start = *old(r);
    let ghost all = old(r).rest();
    let ghost f = vec_reader::<T>(args.item.length);
    let n = args.length.read(r)?;
    let ghost mid = *r;
    let ghost bytes = mid.rest();
    proof {
        lemma_length_bounds(args.length, all);
        let k1 = mid.position() - old(r).position();
        assert(bytes =~= all.skip(k1));
        lemma_vec_reader_bounded::<T>(args.item.length);
        assert(bytes.skip(0) =~= bytes);
        if let Some((vs, k)) = read_list(f, bytes, n as nat) {
            assert(Seq::<Seq<T>>::empty() + vs =~= vs);
        }
    }
    let mut items: Vec<Vec<T>> = Vec::new();
    let mut i: usize = 0;
    let ghost mut c: int = 0;
    while i < n
        invariant
            mid.bytes() == start.bytes(),
            start == *old(r),
            spec_read_vec2::<T>(args.length, args.item.length, start.rest()) == prepend(
                Seq::empty(),
                mid.position() - start.position(),
                read_list(f, bytes, n as nat),
            ),
            bytes == mid.rest(),
            f == vec_reader::<T>(args.item.length),
            bounded(f),
            0 <= i <= n,
            0 <= c <= bytes.len(),
            r.bytes() == start.bytes(),
            r.in_bounds(),
            mid.in_bounds(),
            r.position() == mid.position() + c,
            r.rest() == bytes.skip(c),
            read_list(f, bytes, n as nat) == prepend(
                vec2_view::<T>()(items),
                c,
                read_list(f, bytes.skip(c), (n - i) as nat),
            ),
        decreases n - i,
    {
        let ghost before = *r;
        let row = match read_vec::<T>(r, args.item) {
            Ok(row) => row,
            Err(e) => {
                return Err(e);
            },
        };
        proof {
            let k = r.position() - before.position();
            let rv = vec_view::<T>()(row);
            assert(f(bytes.skip(c)) == Some((rv, k)));
            lemma_read_list_step(f, bytes, vec2_view::<T>()(items), c, (n - i) as nat, rv, k);
            c = c + k;
        }
        let ghost old_items = items;
        items.push(row);
        proof {
            assert(vec2_view::<T>()(items) =~= vec2_view::<T>()(old_items).push(vec_view::<T>()(row)));
        }
        i = i + 1;
    }
    proof {
        assert(vec2_view::<T>()(items) + Seq::<Seq<T>>::empty() =~= vec2_view::<T>()(items));
    }
    Ok(items)
}

/// Writes a sequence of sequences: the outer count, then the inner sequences.
pub fn write_vec2<T: Writable>(w: &mut Writer, items: &Vec<Vec<T>>, args: VecArgs<VecArgs<()>>)
    requires
        vec2_writable::<T>(args.length, args.item.length, vec2_view::<T>()(*items)),
    ensures
        final(w).bytes() == old(w).bytes() + spec_write_vec2::<T>(
            args.length, args.item.length,
            vec2_view::<T>()(*items),
        ),
{
    let ghost s = vec2_view::<T>()(*items);
    let ghost g = vec_writer::<T>(args.item.length);
    let count = args.length.write(w, items.len());
    let ghost t = fixed_items(s, count as nat, Seq::empty());
    let ghost mid = w.bytes();
    let mut i: usize = 0;
    proof {
        assert(t.take(0) =~= Seq::<Seq<T>>::empty());
        assert(mid + Seq::<u8>::empty() =~= mid);
    }
    while i < count
        invariant
            s == vec2_view::<T>()(*items),
            s.len() == items@.len(),
            g == vec_writer::<T>(args.item.length),
            t == fixed_items(s, count as nat, Seq::empty()),
            t.len() == count,
            vec2_writable::<T>(args.length, args.item.length, s),
            0 <= i <= count,
            w.bytes() == mid + write_list(g, t.take(i as int)),
        decreases count - i,
    {
        let ghost before = w.bytes();
        if i < items.len() {
            assert(t[i as int] == s[i as int]);
            assert(vec_writable::<T>(args.item.length, s[i as int]));
            write_vec::<T>(w, items[i].as_slice(), args.item);
        } else {
            let empty: Vec<T> = Vec::new();
            assert(t[i as int] == Seq::<T>::empty());
            assert(vec_view::<T>()(empty) =~= Seq::<T>::empty());
            write_vec::<T>(w, empty.as_slice(), args.item);
        }
        proof {
            lemma_write_list_push(g, t.take(i as int), t[i as int]);
            assert(t.take(i as int).push(t[i as int]) =~= t.take(i + 1));
        }
        i = i + 1;
    }
    assert(t.take(count as int) =~= t);
    assert(old(w).bytes() + spec_write_length(args.length, items@.len() as usize) + write_list(g, t)
        =~= old(w).bytes() + spec_write_vec2::<T>(args.length, args.item.length, s));
}

/* Sequences nested 3 deep */

pub open spec fn vec3_view<T>() -> spec_fn(Vec<Vec<Vec<T>>>) -> Seq<Seq<Seq<T>>> {
    |v: Vec<Vec<Vec<T>>>| v@.map_values(vec2_view::<T>())
}

/// What reading a sequence of sequences yields: the outer count, then that
/// many inner sequences.
pub open spec fn spec_read_vec3<T: Readable>(l3: VecArgsLength, l2: VecArgsLength, l1: VecArgsLength, bytes: Seq<u8>) -> Option<
    (Seq<Seq<Seq<T>>>, int),
> {
    match spec_read_length(l3, bytes) {
        Some((n, k)) => prepend(
            Seq::empty(),
            k,
            read_list(vec2_reader_at::<T>(l2, l1), bytes.skip(k), n as nat),
        ),
        None => None,
    }
}

/// The bytes written for a sequence of sequences: the outer count, then the
/// inner sequences, cut or padded with empty ones to a fixed count.
pub open spec fn spec_write_vec3<T: Writable>(l3: VecArgsLength, l2: VecArgsLength, l1: VecArgsLength, s: Seq<Seq<Seq<T>>>) -> Seq<u8> {
    spec_write_length(l3, s.len() as usize) + write_list(
        vec2_writer_at::<T>(l2, l1),
        fixed_items(s, spec_count(l3, s.len() as usize) as nat, Seq::empty()),
    )
}

pub open spec fn vec3_reader_at<T: Readable>(l3: VecArgsLength, l2: VecArgsLength, l1: VecArgsLength) -> spec_fn(Seq<u8>) -> Option<(Seq<Seq<Seq<T>>>, int)> {
    |b: Seq<u8>| spec_read_vec3::<T>(l3, l2, l1, b)
}

pub open spec fn vec3_writer_at<T: Writable>(l3: VecArgsLength, l2: VecArgsLength, l1: VecArgsLength) -> spec_fn(Seq<Seq<Seq<T>>>) -> Seq<u8> {
    |s: Seq<Seq<Seq<T>>>| spec_write_vec3::<T>(l3, l2, l1, s)
}

pub open spec fn vec3_writable<T: Writable>(l3: VecArgsLength, l2: VecArgsLength, l1: VecArgsLength, s: Seq<Seq<Seq<T>>>) -> bool {
    &&& length_writable(l3, s.len() as usize)
    &&& forall|i: int| 0 <= i < s.len() ==> #[trigger] vec2_writable::<T>(l2, l1, s[i])
}

pub proof fn lemma_vec3_reader_bounded<T: Readable>(l3: VecArgsLength, l2: VecArgsLength, l1: VecArgsLength)
    ensures
        bounded(vec3_reader_at::<T>(l3, l2, l1)),
{
    lemma_vec2_reader_bounded::<T>(l2, l1);
    let f = vec2_reader_at::<T>(l2, l1);
    assert forall|b: Seq<u8>|
        (#[trigger] vec3_reader_at::<T>(l3, l2, l1)(b) matches Some((_, k)) ==> 0 <= k <= b.len()) by {
        lemma_length_bounds(l3, b);
        if let Some((m, k1)) = spec_read_length(l3, b) {
            lemma_read_list_bounds(f, b.skip(k1), m as nat);
        }
    }
}

/// Reads a sequence of sequences.
pub fn read_vec3<T: Readable>(r: &mut Reader, args: VecArgs<VecArgs<VecArgs<()>>>) -> (res: StreamResult<
    Vec<Vec<Vec<T>>>,
>)
    ensures
        read_result_view(
            *old(r),
            *final(r),
            res,
            spec_read_vec3::<T>(args.length, args.item.length, args.item.item.length, old(r).rest()),
            vec3_view::<T>(),
        ),
{
    let ghost start = *old(r);
    let ghost all = old(r).rest();
    let ghost f = vec2_reader_at::<T>(args.item.length, args.item.item.length);
    let n = args.length.read(r)?;
    let ghost mid = *r;
    let ghost bytes = mid.rest();
    proof {
        lemma_length_bounds(args.length, all);
        let k1 = mid.position() - old(r).position();
        assert(bytes =~= all.skip(k1));
        lemma_vec2_reader_bounded::<T>(args.item.length, args.item.item.length);
        assert(bytes.skip(0) =~= bytes);
        if let Some((vs, k)) = read_list(f, bytes, n as nat) {
            assert(Seq::<Seq<Seq<T>>>::empty() + vs =~= vs);
        }
    }
    let mut items: Vec<Vec<Vec<T>>> = Vec::new();
    let mut i: usize = 0;
    let ghost mut c: int = 0;
    while i < n
        invariant
            mid.bytes() == start.bytes(),
            start == *old(r),
            spec_read_vec3::<T>(args.length, args.item.length, args.item.item.length, start.rest()) == prepend(
                Seq::empty(),
                mid.position() - start.position(),
                read_list(f, bytes, n as nat),
            ),
            bytes == mid.rest(),
            f == vec2_reader_at::<T>(args.item.length, args.item.item.length),
            bounded(f),
            0 <= i <= n,
            0 <= c <= bytes.len(),
            r.bytes() == start.bytes(),
            r.in_bounds(),
            mid.in_bounds(),
            r.position() == mid.position() + c,
            r.rest() == bytes.skip(c),
            read_list(f, bytes, n as nat) == prepend(
                vec3_view::<T>()(items),
                c,
                read_list(f, bytes.skip(c), (n - i) as nat),
            ),
        decreases n - i,
    {
        let ghost before = *r;
        let row = match read_vec2::<T>(r, args.item) {
            Ok(row) => row,
            Err(e) => {
                return Err(e);
            },
        };
        proof {
            let k = r.position() - before.position();
            let rv = vec2_view::<T>()(row);
            assert(f(bytes.skip(c)) == Some((rv, k)));
            lemma_read_list_step(f, bytes, vec3_view::<T>()(items), c, (n - i) as nat, rv, k);
            c = c + k;
        }
        let ghost old_items = items;
        items.push(row);
        proof {
            assert(vec3_view::<T>()(items) =~= vec3_view::<T>()(old_items).push(vec2_view::<T>()(row)));
        }
        i = i + 1;
    }
    proof {
        assert(vec3_view::<T>()(items) + Seq::<Seq<Seq<T>>>::empty() =~= vec3_view::<T>()(items));
    }
    Ok(items)
}

/// Writes a sequence of sequences: the outer count, then the inner sequences.
pub fn write_vec3<T: Writable>(w: &mut Writer, items: &Vec<Vec<Vec<T>>>, args: VecArgs<VecArgs<VecArgs<()>>>)
    requires
        vec3_writable::<T>(args.length, args.item.length, args.item.item.length, vec3_view::<T>()(*items)),
    ensures
        final(w).bytes() == old(w).bytes() + spec_write_vec3::<T>(
            args.length, args.item.length, args.item.item.length,
            vec3_view::<T>()(*items),
        ),
{
    let ghost s = vec3_view::<T>()(*items);
    let ghost g = vec2_writer_at::<T>(args.item.length, args.item.item.length);
    let count = args.length.write(w, items.len());
    let ghost t = fixed_items(s, count as nat, Seq::empty());
    let ghost mid = w.bytes();
    let mut i: usize = 0;
    proof {
        assert(t.take(0) =~= Seq::<Seq<Seq<T>>>::empty());
        assert(mid + Seq::<u8>::empty() =~= mid);
    }
    while i < count
        invariant
            s == vec3_view::<T>()(*items),
            s.len() == items@.len(),
            g == vec2_writer_at::<T>(args.item.length, args.item.item.length),
            t == fixed_items(s, count as nat, Seq::empty()),
            t.len() == count,
            vec3_writable::<T>(args.length, args.item.length, args.item.item.length, s),
            0 <= i <= count,
            w.bytes() == mid + write_list(g, t.take(i as int)),
        decreases count - i,
    {
        let ghost before = w.bytes();
        if i < items.len() {
            assert(t[i as int] == s[i as int]);
            assert(vec2_writable::<T>(args.item.length, args.item.item.length, s[i as int]));
            write_vec2::<T>(w, &items[i], args.item);
        } else {
            let empty: Vec<Vec<T>> = Vec::new();
            assert(t[i as int] == Seq::<Seq<T>>::empty());
            assert(vec2_view::<T>()(empty) =~= Seq::<Seq<T>>::empty());
            write_vec2::<T>(w, &empty, args.item);
        }
        proof {
            lemma_write_list_push(g, t.take(i as int), t[i as int]);
            assert(t.take(i as int).push(t[i as int]) =~= t.take(i + 1));
        }
        i = i + 1;
    }
    assert(t.take(count as int) =~= t);
    assert(old(w).bytes() + spec_write_length(args.length, items@.len() as usize) + write_list(g, t)
        =~= old(w).bytes() + spec_write_vec3::<T>(args.length, args.item.length, args.item.item.length, s));
}

/* Sequences nested 4 deep */

pub open spec fn vec4_view<T>() -> spec_fn(Vec<Vec<Vec<Vec<T>>>>) -> Seq<Seq<Seq<Seq<T>>>> {
    |v: Vec<Vec<Vec<Vec<T>>>>| v@.map_values(vec3_view::<T>())
}

/// What reading a sequence of sequences yields: the outer count, then that
/// many inner sequences.
pub open spec fn spec_read_vec4<T: Readable>(l4: VecArgsLength, l3: VecArgsLength, l2: VecArgsLength, l1: VecArgsLength, bytes: Seq<u8>) -> Option<
    (Seq<Seq<Seq<Seq<T>>>>, int),
> {
    match spec_read_length(l4, bytes) {
        Some((n, k)) => prepend(
            Seq::empty(),
            k,
            read_list(vec3_reader_at::<T>(l3, l2, l1), bytes.skip(k), n as nat),
        ),
        None => None,
    }
}

/// The bytes written for a sequence of sequences: the outer count, then the
/// inner sequences, cut or padded with empty ones to a fixed count.
pub open spec fn spec_write_vec4<T: Writable>(l4: VecArgsLength, l3: VecArgsLength, l2: VecArgsLength, l1: VecArgsLength, s: Seq<Seq<Seq<Seq<T>>>>) -> Seq<u8> {
    spec_write_length(l4, s.len() as usize) + write_list(
        vec3_writer_at::<T>(l3, l2, l1),
        fixed_items(s, spec_count(l4, s.len() as usize) as nat, Seq::empty()),
    )
}

pub open spec fn vec4_reader_at<T: Readable>(l4: VecArgsLength, l3: VecArgsLength, l2: VecArgsLength, l1: VecArgsLength) -> spec_fn(Seq<u8>) -> Option<(Seq<Seq<Seq<Seq<T>>>>, int)> {
    |b: Seq<u8>| spec_read_vec4::<T>(l4, l3, l2, l1, b)
}

pub open spec fn vec4_writer_at<T: Writable>(l4: VecArgsLength, l3: VecArgsLength, l2: VecArgsLength, l1: VecArgsLength) -> spec_fn(Seq<Seq<Seq<Seq<T>>>>) -> Seq<u8> {
    |s: Seq<Seq<Seq<Seq<T>>>>| spec_write_vec4::<T>(l4, l3, l2, l1, s)
}

pub open spec fn vec4_writable<T: Writable>(l4: VecArgsLength, l3: VecArgsLength, l2: VecArgsLength, l1: VecArgsLength, s: Seq<Seq<Seq<Seq<T>>>>) -> bool {
    &&& length_writable(l4, s.len() as usize)
    &&& forall|i: int| 0 <= i < s.len() ==> #[trigger] vec3_writable::<T>(l3, l2, l1, s[i])
}

pub proof fn lemma_vec4_reader_bounded<T: Readable>(l4: VecArgsLength, l3: VecArgsLength, l2: VecArgsLength, l1: VecArgsLength)
    ensures
        bounded(vec4_reader_at::<T>(l4, l3, l2, l1)),
{
    lemma_vec3_reader_bounded::<T>(l3, l2, l1);
    let f = vec3_reader_at::<T>(l3, l2, l1);
    assert forall|b: Seq<u8>|
        (#[trigger] vec4_reader_at::<T>(l4, l3, l2, l1)(b) matches Some((_, k)) ==> 0 <= k <= b.len()) by {
        lemma_length_bounds(l4, b);
        if let Some((m, k1)) = spec_read_length(l4, b) {
            lemma_read_list_bounds(f, b.skip(k1), m as nat);
        }
    }
}

/// Reads a sequence of sequences.
pub fn read_vec4<T: Readable>(r: &mut Reader, args: VecArgs<VecArgs<VecArgs<VecArgs<()>>>>) -> (res: StreamResult<
    Vec<Vec<Vec<Vec<T>>>>,
>)
    ensures
        read_result_view(
            *old(r),
            *final(r),
            res,
            spec_read_vec4::<T>(args.length, args.item.length, args.item.item.length, args.item.item.item.length, old(r).rest()),
            vec4_view::<T>(),
        ),
{
    let ghost start = *old(r);
    let ghost all = old(r).rest();
    let ghost f = vec3_reader_at::<T>(args.item.length, args.item.item.length, args.item.item.item.length);
    let n = args.length.read(r)?;
    let ghost mid = *r;
    let ghost bytes = mid.rest();
    proof {
        lemma_length_bounds(args.length, all);
        let k1 = mid.position() - old(r).position();
        assert(bytes =~= all.skip(k1));
        lemma_vec3_reader_bounded::<T>(args.item.length, args.item.item.length, args.item.item.item.length);
        assert(bytes.skip(0) =~= bytes);
        if let Some((vs, k)) = read_list(f, bytes, n as nat) {
            assert(Seq::<Seq<Seq<Seq<T>>>>::empty() + vs =~= vs);
        }
    }
    let mut items: Vec<Vec<Vec<Vec<T>>>> = Vec::new();
    let mut i: usize = 0;
    let ghost mut c: int = 0;
    while i < n
        invariant
            mid.bytes() == start.bytes(),
            start == *old(r),
            spec_read_vec4::<T>(args.length, args.item.length, args.item.item.length, args.item.item.item.length, start.rest()) == prepend(
                Seq::empty(),
                mid.position() - start.position(),
                read_list(f, bytes, n as nat),
            ),
            bytes == mid.rest(),
            f == vec3_reader_at::<T>(args.item.length, args.item.item.length, args.item.item.item.length),
            bounded(f),
            0 <= i <= n,
            0 <= c <= bytes.len(),
            r.bytes() == start.bytes(),
            r.in_bounds(),
            mid.in_bounds(),
            r.position() == mid.position() + c,
            r.rest() == bytes.skip(c),
            read_list(f, bytes, n as nat) == prepend(
                vec4_view::<T>()(items),
                c,
                read_list(f, bytes.skip(c), (n - i) as nat),
            ),
        decreases n - i,
    {
        let ghost before = *r;
        let row = match read_vec3::<T>(r, args.item) {
            Ok(row) => row,
            Err(e) => {
                return Err(e);
            },
        };
        proof {
            let k = r.position() - before.position();
            let rv = vec3_view::<T>()(row);
            assert(f(bytes.skip(c)) == Some((rv, k)));
            lemma_read_list_step(f, bytes, vec4_view::<T>()(items), c, (n - i) as nat, rv, k);
            c = c + k;
        }
        let ghost old_items = items;
        items.push(row);
        proof {
            assert(vec4_view::<T>()(items) =~= vec4_view::<T>()(old_items).push(vec3_view::<T>()(row)));
        }
        i = i + 1;
    }
    proof {
        assert(vec4_view::<T>()(items) + Seq::<Seq<Seq<Seq<T>>>>::empty() =~= vec4_view::<T>()(items));
    }
    Ok(items)
}

/// Writes a sequence of sequences: the outer count, then the inner sequences.
pub fn write_vec4<T: Writable>(w: &mut Writer, items: &Vec<Vec<Vec<Vec<T>>>>, args: VecArgs<VecArgs<VecArgs<VecArgs<()>>>>)
    requires
        vec4_writable::<T>(args.length, args.item.length, args.item.item.length, args.item.item.item.length, vec4_view::<T>()(*items)),
    ensures
        final(w).bytes() == old(w).bytes() + spec_write_vec4::<T>(
            args.length, args.item.length, args.item.item.length, args.item.item.item.length,
            vec4_view::<T>()(*items),
        ),
{
    let ghost s = vec4_view::<T>()(*items);
    let ghost g = vec3_writer_at::<T>(args.item.length, args.item.item.length, args.item.item.item.length);
    let count = args.length.write(w, items.len());
    let ghost t = fixed_items(s, count as nat, Seq::empty());
    let ghost mid = w.bytes();
    let mut i: usize = 0;
    proof {
        assert(t.take(0) =~= Seq::<Seq<Seq<Seq<T>>>>::empty());
        assert(mid + Seq::<u8>::empty() =~= mid);
    }
    while i < count
        invariant
            s == vec4_view::<T>()(*items),
            s.len() == items@.len(),
            g == vec3_writer_at::<T>(args.item.length, args.item.item.length, args.item.item.item.length),
            t == fixed_items(s, count as nat, Seq::empty()),
            t.len() == count,
            vec4_writable::<T>(args.length, args.item.length, args.item.item.length, args.item.item.item.length, s),
            0 <= i <= count,
            w.bytes() == mid + write_list(g, t.take(i as int)),
        decreases count - i,
    {
        let ghost before = w.bytes();
        if i < items.len() {
            assert(t[i as int] == s[i as int]);
            assert(vec3_writable::<T>(args.item.length, args.item.item.length, args.item.item.item.length, s[i as int]));
            write_vec3::<T>(w, &items[i], args.item);
        } else {
            let empty: Vec<Vec<Vec<T>>> = Vec::new();
            assert(t[i as int] == Seq::<Seq<Seq<T>>>::empty());
            assert(vec3_view::<T>()(empty) =~= Seq::<Seq<Seq<T>>>::empty());
            write_vec3::<T>(w, &empty, args.item);
        }
        proof {
            lemma_write_list_push(g, t.take(i as int), t[i as int]);
            assert(t.take(i as int).push(t[i as int]) =~= t.take(i + 1));
        }
        i = i + 1;
    }
    assert(t.take(count as int) =~= t);
    assert(old(w).bytes() + spec_write_length(args.length, items@.len() as usize) + write_list(g, t)
        =~= old(w).bytes() + spec_write_vec4::<T>(args.length, args.item.length, args.item.item.length, args.item.item.item.length, s));
}

/* Rectangular grids written with fixed counts */

/// Every value of the type can be written.
pub open spec fn always_writable<T: Writable>() -> bool {
    forall|v: T| #[trigger] v.can_write()
}

/// `s` has `a` rows of `b` values each.
pub open spec fn is_grid2<T>(s: Seq<Seq<T>>, a: nat, b: nat) -> bool {
    &&& s.len() == a
    &&& forall|i: int| 0 <= i < a ==> #[trigger] s[i].len() == b
}

/// `s` is `a` grids of `b` rows of `c` values.
pub open spec fn is_grid3<T>(s: Seq<Seq<Seq<T>>>, a: nat, b: nat, c: nat) -> bool {
    &&& s.len() == a
    &&& forall|i: int| 0 <= i < a ==> #[trigger] is_grid2(s[i], b, c)
}

/// `s` is `a` blocks of `b` grids of `c` rows of `d` values.
pub open spec fn is_grid4<T>(s: Seq<Seq<Seq<Seq<T>>>>, a: nat, b: nat, c: nat, d: nat) -> bool {
    &&& s.len() == a
    &&& forall|i: int| 0 <= i < a ==> #[trigger] is_grid3(s[i], b, c, d)
}

/// A row of exactly the fixed count reads back as itself.
pub proof fn lemma_grid1_roundtrip<T: Codec>(s: Seq<T>, a: usize, rest: Seq<u8>)
    requires
        always_writable::<T>(),
        s.len() == a,
    ensures
        spec_read_vec::<T>(VecArgsLength::Fixed(a), spec_write_vec::<T>(VecArgsLength::Fixed(a), s) + rest)
            == Some((s, spec_write_vec::<T>(VecArgsLength::Fixed(a), s).len() as int)),
{
    assert forall|i: int| 0 <= i < s.len() implies #[trigger] s[i].can_write() by {}
    lemma_vec_roundtrip::<T>(VecArgsLength::Fixed(a), s, rest);
    assert(fixed_items(s, a as nat, T::spec_default()) =~= s);
}

/// A grid of exactly the fixed counts reads back as itself.
pub proof fn lemma_grid2_roundtrip<T: Codec>(s: Seq<Seq<T>>, a: usize, b: usize, rest: Seq<u8>)
    requires
        always_writable::<T>(),
        is_grid2(s, a as nat, b as nat),
    ensures
        spec_read_vec2::<T>(VecArgsLength::Fixed(a), VecArgsLength::Fixed(b), spec_write_vec2::<T>(
            VecArgsLength::Fixed(a),
            VecArgsLength::Fixed(b),
            s,
        ) + rest) == Some(
            (s, spec_write_vec2::<T>(VecArgsLength::Fixed(a), VecArgsLength::Fixed(b), s).len() as int),
        ),
{
    let f = vec_reader::<T>(VecArgsLength::Fixed(b));
    let g = vec_writer::<T>(VecArgsLength::Fixed(b));
    let h = |v: Seq<T>| v;
    assert(fixed_items(s, a as nat, Seq::<T>::empty()) =~= s);
    assert forall|i: int, r: Seq<u8>| 0 <= i < s.len() implies #[trigger] f(g(s[i]) + r) == Some(
        (h(s[i]), g(s[i]).len() as int),
    ) by {
        lemma_grid1_roundtrip::<T>(s[i], b, r);
    }
    lemma_list_roundtrip(f, g, h, s, rest);
    assert(s.map_values(h) =~= s);
    let bytes = spec_write_vec2::<T>(VecArgsLength::Fixed(a), VecArgsLength::Fixed(b), s) + rest;
    assert(spec_write_vec2::<T>(VecArgsLength::Fixed(a), VecArgsLength::Fixed(b), s) =~= write_list(g, s));
    assert(bytes.skip(0) =~= bytes);
    assert(Seq::<Seq<T>>::empty() + s =~= s);
}

/// Grids of exactly the fixed counts read back as themselves.
pub proof fn lemma_grid3_roundtrip<T: Codec>(
    s: Seq<Seq<Seq<T>>>,
    a: usize,
    b: usize,
    c: usize,
    rest: Seq<u8>,
)
    requires
        always_writable::<T>(),
        is_grid3(s, a as nat, b as nat, c as nat),
    ensures
        spec_read_vec3::<T>(
            VecArgsLength::Fixed(a),
            VecArgsLength::Fixed(b),
            VecArgsLength::Fixed(c),
            spec_write_vec3::<T>(
                VecArgsLength::Fixed(a),
                VecArgsLength::Fixed(b),
                VecArgsLength::Fixed(c),
                s,
            ) + rest,
        ) == Some(
            (
                s,
                spec_write_vec3::<T>(
                    VecArgsLength::Fixed(a),
                    VecArgsLength::Fixed(b),
                    VecArgsLength::Fixed(c),
                    s,
                ).len() as int,
            ),
        ),
{
    let f = vec2_reader_at::<T>(VecArgsLength::Fixed(b), VecArgsLength::Fixed(c));
    let g = vec2_writer_at::<T>(VecArgsLength::Fixed(b), VecArgsLength::Fixed(c));
    let h = |v: Seq<Seq<T>>| v;
    assert(fixed_items(s, a as nat, Seq::<Seq<T>>::empty()) =~= s);
    assert forall|i: int, r: Seq<u8>| 0 <= i < s.len() implies #[trigger] f(g(s[i]) + r) == Some(
        (h(s[i]), g(s[i]).len() as int),
    ) by {
        lemma_grid2_roundtrip::<T>(s[i], b, c, r);
    }
    lemma_list_roundtrip(f, g, h, s, rest);
    assert(s.map_values(h) =~= s);
    let w = spec_write_vec3::<T>(
        VecArgsLength::Fixed(a),
        VecArgsLength::Fixed(b),
        VecArgsLength::Fixed(c),
        s,
    );
    assert(w =~= write_list(g, s));
    assert((w + rest).skip(0) =~= w + rest);
    assert(Seq::<Seq<Seq<T>>>::empty() + s =~= s);
}

/// Blocks of grids of exactly the fixed counts read back as themselves.
pub proof fn lemma_grid4_roundtrip<T: Codec>(
    s: Seq<Seq<Seq<Seq<T>>>>,
    a: usize,
    b: usize,
    c: usize,
    d: usize,
    rest: Seq<u8>,
)
    requires
        always_writable::<T>(),
        is_grid4(s, a as nat, b as nat, c as nat, d as nat),
    ensures
        spec_read_vec4::<T>(
            VecArgsLength::Fixed(a),
            VecArgsLength::Fixed(b),
            VecArgsLength::Fixed(c),
            VecArgsLength::Fixed(d),
            spec_write_vec4::<T>(
                VecArgsLength::Fixed(a),
                VecArgsLength::Fixed(b),
                VecArgsLength::Fixed(c),
                VecArgsLength::Fixed(d),
                s,
            ) + rest,
        ) == Some(
            (
                s,
                spec_write_vec4::<T>(
                    VecArgsLength::Fixed(a),
                    VecArgsLength::Fixed(b),
                    VecArgsLength::Fixed(c),
                    VecArgsLength::Fixed(d),
                    s,
                ).len() as int,
            ),
        ),
{
    let f = vec3_reader_at::<T>(VecArgsLength::Fixed(b), VecArgsLength::Fixed(c), VecArgsLength::Fixed(d));
    let g = vec3_writer_at::<T>(VecArgsLength::Fixed(b), VecArgsLength::Fixed(c), VecArgsLength::Fixed(d));
    let h = |v: Seq<Seq<Seq<T>>>| v;
    assert(fixed_items(s, a as nat, Seq::<Seq<Seq<T>>>::empty()) =~= s);
    assert forall|i: int, r: Seq<u8>| 0 <= i < s.len() implies #[trigger] f(g(s[i]) + r) == Some(
        (h(s[i]), g(s[i]).len() as int),
    ) by {
        lemma_grid3_roundtrip::<T>(s[i], b, c, d, r);
    }
    lemma_list_roundtrip(f, g, h, s, rest);
    assert(s.map_values(h) =~= s);
    let w = spec_write_vec4::<T>(
        VecArgsLength::Fixed(a),
        VecArgsLength::Fixed(b),
        VecArgsLength::Fixed(c),
        VecArgsLength::Fixed(d),
        s,
    );
    assert(w =~= write_list(g, s));
    assert((w + rest).skip(0) =~= w + rest);
    assert(Seq::<Seq<Seq<Seq<T>>>>::empty() + s =~= s);
}

} // verus!
