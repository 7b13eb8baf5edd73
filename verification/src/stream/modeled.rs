//! Sequences of values that are compared by what they hold (such as strings
//! and records with sequences inside) rather than by identity.

use vstd::prelude::*;
use crate::stream::{Codec, Reader, StreamError, StreamErrorKind, StreamResult, Writer, Readable, Writable};
use crate::stream::compound::{distinct_keys, HashMapLength, MapKey, spec_read_map};
use crate::stream::lists::{
    bounded, fixed_items, lemma_length_bounds, lemma_read_list_bounds, lemma_read_list_step,
    lemma_write_list_push, length_writable, prepend, read_list, read_result_view, spec_count,
    spec_read_length, spec_write_length, write_list, VecArgsLength, read_vec, write_vec,
    spec_read_vec, spec_write_vec, VecArgs, vec_writable, lemma_vec_reader_bounded, vec_reader,
    lemma_list_roundtrip, lemma_length_roundtrip, lemma_vec_roundtrip, length_fits,
};

verus! {

/// A value read and written by what it holds.
pub trait ModelCodec: Sized {
    type M;

    spec fn model(&self) -> Self::M;

    spec fn spec_read_model(bytes: Seq<u8>) -> Option<(Self::M, int)>;

    spec fn spec_write_model(m: Self::M) -> Seq<u8>;

    /// What an empty value holds.
    spec fn default_model() -> Self::M;

    proof fn lemma_read_bounds(bytes: Seq<u8>)
        ensures
            Self::spec_read_model(bytes) matches Some((_, k)) ==> 0 <= k <= bytes.len(),
    ;

    fn read_item(r: &mut Reader) -> (res: StreamResult<Self>)
        ensures
            read_result_view(*old(r), *final(r), res, Self::spec_read_model(old(r).rest()), |x: Self| x.model()),
    ;

    fn write_item(&self, w: &mut Writer)
        ensures
            final(w).bytes() == old(w).bytes() + Self::spec_write_model(self.model()),
    ;

    fn default_item() -> (d: Self)
        ensures
            d.model() == Self::default_model(),
    ;
}

pub open spec fn model_reader<T: ModelCodec>() -> spec_fn(Seq<u8>) -> Option<(T::M, int)> {
    |b: Seq<u8>| T::spec_read_model(b)
}

pub open spec fn model_writer<T: ModelCodec>() -> spec_fn(T::M) -> Seq<u8> {
    |m: T::M| T::spec_write_model(m)
}

pub open spec fn models<T: ModelCodec>(v: Seq<T>) -> Seq<T::M> {
    v.map_values(|x: T| x.model())
}

pub open spec fn models_view<T: ModelCodec>() -> spec_fn(Vec<T>) -> Seq<T::M> {
    |v: Vec<T>| models(v@)
}

/// What reading a counted sequence of such values yields.
pub open spec fn spec_read_models<T: ModelCodec>(length: VecArgsLength, bytes: Seq<u8>) -> Option<(Seq<T::M>, int)> {
    match spec_read_length(length, bytes) {
        Some((n, k)) => prepend(Seq::empty(), k, read_list(model_reader::<T>(), bytes.skip(k), n as nat)),
        None => None,
    }
}

/// The bytes of a counted sequence: the count, then the values, cut or
/// padded with empty ones to a fixed count.
pub open spec fn spec_write_models<T: ModelCodec>(length: VecArgsLength, s: Seq<T::M>) -> Seq<u8> {
    spec_write_length(length, s.len() as usize) + write_list(
        model_writer::<T>(),
        fixed_items(s, spec_count(length, s.len() as usize) as nat, T::default_model()),
    )
}

pub proof fn lemma_model_reader_bounded<T: ModelCodec>()
    ensures
        bounded(model_reader::<T>()),
{
    assert forall|b: Seq<u8>| (#[trigger] model_reader::<T>()(b) matches Some((_, k)) ==> 0 <= k <= b.len()) by {
        T::lemma_read_bounds(b);
    }
}

pub fn read_models<T: ModelCodec>(r: &mut Reader, length: VecArgsLength) -> (res: StreamResult<Vec<T>>)
    ensures
        read_result_view(*old(r), *final(r), res, spec_read_models::<T>(length, old(r).rest()), models_view::<T>()),
        res is Ok ==> old(r).position() <= final(r).position(),
{
    let ghost start = *old(r);
    let ghost all = old(r).rest();
    let ghost f = model_reader::<T>();
    let _ = r.remaining();
    let n = length.read(r)?;
    let ghost mid = *r;
    let ghost bytes = mid.rest();
    proof {
        lemma_length_bounds(length, all);
        let k1 = mid.position() - start.position();
        assert(bytes =~= all.skip(k1));
        lemma_model_reader_bounded::<T>();
        lemma_read_list_bounds(f, bytes, n as nat);
        assert(bytes.skip(0) =~= bytes);
        if let Some((vs, k)) = read_list(f, bytes, n as nat) {
            assert(Seq::<T::M>::empty() + vs =~= vs);
        }
    }
    let mut items: Vec<T> = Vec::new();
    let mut i: usize = 0;
    let ghost mut c: int = 0;
    while i < n
        invariant
            start == *old(r),
            mid.bytes() == start.bytes(),
            spec_read_models::<T>(length, start.rest()) == prepend(
                Seq::empty(),
                mid.position() - start.position(),
                read_list(f, bytes, n as nat),
            ),
            start.position() <= mid.position(),
            bytes == mid.rest(),
            f == model_reader::<T>(),
            bounded(f),
            0 <= i <= n,
            0 <= c <= bytes.len(),
            r.bytes() == start.bytes(),
            r.in_bounds(),
            mid.in_bounds(),
            r.position() == mid.position() + c,
            r.rest() == bytes.skip(c),
            read_list(f, bytes, n as nat) == prepend(models(items@), c, read_list(f, bytes.skip(c), (n - i) as nat)),
        decreases n - i,
    {
        let ghost before = *r;
        let item = match T::read_item(r) {
            Ok(item) => item,
            Err(e) => {
                return Err(e);
            },
        };
        proof {
            let k = r.position() - before.position();
            assert(f(bytes.skip(c)) == Some((item.model(), k)));
            lemma_read_list_step(f, bytes, models(items@), c, (n - i) as nat, item.model(), k);
            c = c + k;
        }
        let ghost old_items = items@;
        items.push(item);
        proof {
            assert(models(items@) =~= models(old_items).push(item.model()));
        }
        i = i + 1;
    }
    proof {
        assert(models(items@) + Seq::<T::M>::empty() =~= models(items@));
    }
    Ok(items)
}

pub fn write_models<T: ModelCodec>(w: &mut Writer, items: &Vec<T>, length: VecArgsLength)
    requires
        length_writable(length, items@.len() as usize),
    ensures
        final(w).bytes() == old(w).bytes() + spec_write_models::<T>(length, models(items@)),
{
    let ghost s = models(items@);
    let ghost g = model_writer::<T>();
    let count = length.write(w, items.len());
    let ghost t = fixed_items(s, count as nat, T::default_model());
    let ghost mid = w.bytes();
    let mut i: usize = 0;
    proof {
        assert(t.take(0) =~= Seq::<T::M>::empty());
        assert(mid + Seq::<u8>::empty() =~= mid);
    }
    while i < count
        invariant
            s == models(items@),
            s.len() == items@.len(),
            g == model_writer::<T>(),
            t == fixed_items(s, count as nat, T::default_model()),
            t.len() == count,
            0 <= i <= count,
            w.bytes() == mid + write_list(g, t.take(i as int)),
        decreases count - i,
    {
        if i < items.len() {
            assert(t[i as int] == items@[i as int].model());
            items[i].write_item(w);
        } else {
            let d = T::default_item();
            assert(t[i as int] == d.model());
            d.write_item(w);
        }
        proof {
            lemma_write_list_push(g, t.take(i as int), t[i as int]);
            assert(t.take(i as int).push(t[i as int]) =~= t.take(i + 1));
        }
        i = i + 1;
    }
    assert(t.take(count as int) =~= t);
    assert(w.bytes() =~= old(w).bytes() + spec_write_models::<T>(length, s));
}


/* Maps whose values are read by what they hold */

/// A key that can always be written.
pub trait FixedKey: MapKey {
    proof fn lemma_key_writable(k: Self)
        ensures
            k.can_write(),
    ;
}

impl FixedKey for i8 {
    proof fn lemma_key_writable(k: Self) {
    }
}

impl FixedKey for i16 {
    proof fn lemma_key_writable(k: Self) {
    }
}

impl FixedKey for i32 {
    proof fn lemma_key_writable(k: Self) {
    }
}

/// A map entry: the key, then the value.
impl<K: FixedKey, V: ModelCodec> ModelCodec for (K, V) {
    type M = (K, V::M);

    open spec fn model(&self) -> (K, V::M) {
        (self.0, self.1.model())
    }

    open spec fn spec_read_model(bytes: Seq<u8>) -> Option<((K, V::M), int)> {
        match K::spec_read(bytes) {
            Some((k, n1)) => match V::spec_read_model(bytes.skip(n1)) {
                Some((v, n2)) => Some(((k, v), n1 + n2)),
                None => None,
            },
            None => None,
        }
    }

    open spec fn spec_write_model(m: (K, V::M)) -> Seq<u8> {
        m.0.spec_write() + V::spec_write_model(m.1)
    }

    open spec fn default_model() -> (K, V::M) {
        (K::spec_default(), V::default_model())
    }

    proof fn lemma_read_bounds(bytes: Seq<u8>) {
        K::lemma_read_bounds(bytes);
        if let Some((k, n1)) = K::spec_read(bytes) {
            V::lemma_read_bounds(bytes.skip(n1));
        }
    }

    fn read_item(r: &mut Reader) -> (res: StreamResult<Self>) {
        let ghost start = *old(r);
        let _ = r.remaining();
        let k = K::read(r)?;
        proof {
            K::lemma_read_bounds(start.rest());
            Reader::lemma_rest_skip(start, *r);
        }
        let v = V::read_item(r)?;
        Ok((k, v))
    }

    fn write_item(&self, w: &mut Writer) {
        proof {
            K::lemma_key_writable(self.0);
        }
        self.0.write(w);
        self.1.write_item(w);
        assert(w.bytes() =~= old(w).bytes() + Self::spec_write_model(self.model()));
    }

    fn default_item() -> (d: Self) {
        (K::default_value(), V::default_item())
    }
}

/// What reading a map with such values yields: its entries, with distinct
/// keys.
pub open spec fn spec_read_model_map<K: FixedKey, V: ModelCodec>(length: VecArgsLength, bytes: Seq<u8>) -> Option<
    (Seq<(K, V::M)>, int),
> {
    match spec_read_models::<(K, V)>(length, bytes) {
        Some((s, k)) => if distinct_keys(s) {
            Some((s, k))
        } else {
            None
        },
        None => None,
    }
}

/// A map preceded by its entry count whose values are read by what they
/// hold; its entries are kept in the order they were read, and no key occurs
/// twice.
#[derive(Debug, Clone)]
pub struct ModelMap<K, V>(pub Vec<(K, V)>);

fn model_key_seen<K: FixedKey, V: ModelCodec>(entries: &Vec<(K, V)>, i: usize) -> (b: bool)
    requires
        i < entries@.len(),
    ensures
        b == exists|j: int| 0 <= j < i && #[trigger] entries@[j].0 == entries@[i as int].0,
{
    let mut j: usize = 0;
    while j < i
        invariant
            i < entries@.len(),
            0 <= j <= i,
            forall|l: int| 0 <= l < j ==> #[trigger] entries@[l].0 != entries@[i as int].0,
        decreases i - j,
    {
        if entries[j].0.same(&entries[i].0) {
            return true;
        }
        j = j + 1;
    }
    false
}

impl<K: FixedKey, V: ModelCodec> ModelMap<K, V> {
    /// What the map holds: its entries' keys and values' contents.
    pub open spec fn entries(&self) -> Seq<(K, V::M)> {
        models(self.0@)
    }

    pub fn read(r: &mut Reader, length: VecArgsLength) -> (res: StreamResult<Self>)
        ensures
            read_result_view(
                *old(r),
                *final(r),
                res,
                spec_read_model_map::<K, V>(length, old(r).rest()),
                |m: Self| m.entries(),
            ),
            res is Ok ==> old(r).position() <= final(r).position(),
    {
        let pos = r.stream_position();
        let ghost rest0 = old(r).rest();
        let entries = read_models::<(K, V)>(r, length)?;
        let ghost s = models(entries@);
        let ghost expected = spec_read_models::<(K, V)>(length, rest0);
        let mut i: usize = 0;
        while i < entries.len()
            invariant
                expected matches Some((e, _)) && e == s,
                rest0 == old(r).rest(),
                r.bytes() == old(r).bytes(),
                r.in_bounds(),
                spec_read_model_map::<K, V>(length, rest0) == (if distinct_keys(s) {
                    expected
                } else {
                    None
                }),
                s == models(entries@),
                s.len() == entries@.len(),
                0 <= i <= entries@.len(),
                forall|a: int, b: int| 0 <= a < b < i ==> #[trigger] s[a].0 != #[trigger] s[b].0,
            decreases entries@.len() - i,
        {
            if model_key_seen(&entries, i) {
                proof {
                    let j = choose|j: int| 0 <= j < i && #[trigger] entries@[j].0 == entries@[i as int].0;
                    assert(s[j].0 == s[i as int].0);
                    assert(!distinct_keys(s));
                }
                return Err(StreamError::new(StreamErrorKind::DuplicateKey, pos as u64));
            }
            proof {
                assert forall|a: int, b: int| 0 <= a < b < i + 1 implies #[trigger] s[a].0 != #[trigger] s[b].0 by {
                    if b == i {
                        assert(s[a].0 == entries@[a].0);
                        assert(s[b].0 == entries@[b].0);
                    }
                }
            }
            i = i + 1;
        }
        Ok(ModelMap(entries))
    }

    pub fn write(&self, w: &mut Writer, length: VecArgsLength)
        requires
            length_writable(length, self.0@.len() as usize),
        ensures
            final(w).bytes() == old(w).bytes() + spec_write_models::<(K, V)>(length, self.entries()),
    {
        write_models::<(K, V)>(w, &self.0, length);
    }
}

/// A value of a fixed layout that can always be written.
pub trait FixedCodec: Codec {
    proof fn lemma_always_writable(v: Self)
        ensures
            v.can_write(),
    ;
}

impl FixedCodec for i32 {
    proof fn lemma_always_writable(v: Self) {
    }
}

/// A list of values preceded by their count as an `i32`.
#[derive(Debug, Clone)]
pub struct I32List<T>(pub Vec<T>);

impl<T: FixedCodec> ModelCodec for I32List<T> {
    type M = Seq<T>;

    open spec fn model(&self) -> Seq<T> {
        self.0@
    }

    open spec fn spec_read_model(bytes: Seq<u8>) -> Option<(Seq<T>, int)> {
        spec_read_vec::<T>(VecArgsLength::I32, bytes)
    }

    open spec fn spec_write_model(m: Seq<T>) -> Seq<u8> {
        spec_write_vec::<T>(VecArgsLength::I32, m)
    }

    open spec fn default_model() -> Seq<T> {
        Seq::empty()
    }

    proof fn lemma_read_bounds(bytes: Seq<u8>) {
        lemma_vec_reader_bounded::<T>(VecArgsLength::I32);
        assert(vec_reader::<T>(VecArgsLength::I32)(bytes) == spec_read_vec::<T>(VecArgsLength::I32, bytes));
    }

    fn read_item(r: &mut Reader) -> (res: StreamResult<Self>) {
        Ok(I32List(read_vec::<T>(r, VecArgs::new_empty_i32())?))
    }

    fn write_item(&self, w: &mut Writer) {
        assert forall|i: int| 0 <= i < self.0@.len() implies #[trigger] self.0@[i].can_write() by {
            T::lemma_always_writable(self.0@[i]);
        }
        assert(vec_writable(VecArgsLength::I32, self.0@));
        write_vec::<T>(w, self.0.as_slice(), VecArgs::new_empty_i32());
    }

    fn default_item() -> (d: Self) {
        I32List(Vec::new())
    }
}

/// A map of 16-bit values by byte keys, preceded by its count as a byte.
#[derive(Debug, Clone)]
pub struct I8Map(pub HashMapLength<i8, i16>);

impl ModelCodec for I8Map {
    type M = Seq<(i8, i16)>;

    open spec fn model(&self) -> Seq<(i8, i16)> {
        self.0.0@
    }

    open spec fn spec_read_model(bytes: Seq<u8>) -> Option<(Seq<(i8, i16)>, int)> {
        spec_read_map::<i8, i16>(VecArgsLength::I8, bytes)
    }

    open spec fn spec_write_model(m: Seq<(i8, i16)>) -> Seq<u8> {
        spec_write_vec::<(i8, i16)>(VecArgsLength::I8, m)
    }

    open spec fn default_model() -> Seq<(i8, i16)> {
        Seq::empty()
    }

    proof fn lemma_read_bounds(bytes: Seq<u8>) {
        lemma_vec_reader_bounded::<(i8, i16)>(VecArgsLength::I8);
        assert(vec_reader::<(i8, i16)>(VecArgsLength::I8)(bytes) == spec_read_vec::<(i8, i16)>(VecArgsLength::I8, bytes));
    }

    fn read_item(r: &mut Reader) -> (res: StreamResult<Self>) {
        Ok(I8Map(HashMapLength::<i8, i16>::read(r, VecArgsLength::I8)?))
    }

    fn write_item(&self, w: &mut Writer) {
        assert(vec_writable(VecArgsLength::I8, self.0.0@));
        self.0.write(w, VecArgsLength::I8);
    }

    fn default_item() -> (d: Self) {
        I8Map(HashMapLength(Vec::new()))
    }
}

/* Reading back what was written */

/// A value read and written by what it holds that reads back as what was
/// written, where it fits the format.
pub trait ModelRoundtrip: ModelCodec {
    /// Whether the format can hold the value (its counts fit their kinds).
    spec fn fits(m: Self::M) -> bool;

    proof fn lemma_default_fits()
        ensures
            Self::fits(Self::default_model()),
    ;

    proof fn lemma_model_roundtrip(m: Self::M, rest: Seq<u8>)
        requires
            Self::fits(m),
        ensures
            Self::spec_read_model(Self::spec_write_model(m) + rest) == Some(
                (m, Self::spec_write_model(m).len() as int),
            ),
    ;
}

/// A counted sequence of such values reads back as what was written (cut or
/// padded to a fixed count).
pub proof fn lemma_models_roundtrip<T: ModelRoundtrip>(length: VecArgsLength, s: Seq<T::M>, rest: Seq<u8>)
    requires
        length_fits(length, s.len() as usize),
        s.len() <= usize::MAX,
        forall|i: int| 0 <= i < s.len() ==> T::fits(#[trigger] s[i]),
    ensures
        spec_read_models::<T>(length, spec_write_models::<T>(length, s) + rest) == Some(
            (
                fixed_items(s, spec_count(length, s.len() as usize) as nat, T::default_model()),
                spec_write_models::<T>(length, s).len() as int,
            ),
        ),
{
    let len = s.len() as usize;
    let count = spec_count(length, len);
    let t = fixed_items(s, count as nat, T::default_model());
    let f = model_reader::<T>();
    let g = model_writer::<T>();
    let h = |m: T::M| m;
    let lb = spec_write_length(length, len);
    let wb = write_list(g, t);
    T::lemma_default_fits();
    assert forall|i: int, r: Seq<u8>| 0 <= i < t.len() implies #[trigger] f(g(t[i]) + r) == Some(
        (h(t[i]), g(t[i]).len() as int),
    ) by {
        if i < s.len() {
            assert(t[i] == s[i]);
        }
        T::lemma_model_roundtrip(t[i], r);
    }
    lemma_list_roundtrip(f, g, h, t, rest);
    assert(t.map_values(h) =~= t);
    lemma_length_roundtrip(length, len, wb + rest);
    assert(spec_write_models::<T>(length, s) + rest =~= lb + (wb + rest));
    assert((lb + (wb + rest)).skip(lb.len() as int) =~= wb + rest);
    assert(Seq::<T::M>::empty() + t =~= t);
}

impl<K: FixedKey, V: ModelRoundtrip> ModelRoundtrip for (K, V) {
    open spec fn fits(m: (K, V::M)) -> bool {
        V::fits(m.1)
    }

    proof fn lemma_default_fits() {
        V::lemma_default_fits();
    }

    proof fn lemma_model_roundtrip(m: (K, V::M), rest: Seq<u8>) {
        let kb = m.0.spec_write();
        let vb = V::spec_write_model(m.1);
        K::lemma_key_writable(m.0);
        K::lemma_roundtrip(m.0, vb + rest);
        assert(Self::spec_write_model(m) + rest =~= kb + (vb + rest));
        assert((kb + (vb + rest)).skip(kb.len() as int) =~= vb + rest);
        V::lemma_model_roundtrip(m.1, rest);
    }
}

/// A map with distinct keys whose values fit reads back as what was written.
pub proof fn lemma_model_map_roundtrip<K: FixedKey, V: ModelRoundtrip>(length: VecArgsLength, s: Seq<(K, V::M)>, rest: Seq<u8>)
    requires
        !(length is Fixed),
        length_fits(length, s.len() as usize),
        s.len() <= usize::MAX,
        distinct_keys(s),
        forall|i: int| 0 <= i < s.len() ==> V::fits(#[trigger] s[i].1),
    ensures
        spec_read_model_map::<K, V>(length, spec_write_models::<(K, V)>(length, s) + rest) == Some(
            (s, spec_write_models::<(K, V)>(length, s).len() as int),
        ),
{
    assert forall|i: int| 0 <= i < s.len() implies <(K, V) as ModelRoundtrip>::fits(#[trigger] s[i]) by {
        assert(V::fits(s[i].1));
    }
    lemma_models_roundtrip::<(K, V)>(length, s, rest);
    assert(fixed_items(s, s.len(), <(K, V) as ModelCodec>::default_model()) =~= s);
}

impl<T: FixedCodec> ModelRoundtrip for I32List<T> {
    open spec fn fits(m: Seq<T>) -> bool {
        m.len() <= i32::MAX
    }

    proof fn lemma_default_fits() {
    }

    proof fn lemma_model_roundtrip(m: Seq<T>, rest: Seq<u8>) {
        assert forall|i: int| 0 <= i < m.len() implies #[trigger] m[i].can_write() by {
            T::lemma_always_writable(m[i]);
        }
        lemma_vec_roundtrip::<T>(VecArgsLength::I32, m, rest);
        assert(fixed_items(m, m.len(), T::spec_default()) =~= m);
    }
}

impl ModelRoundtrip for I8Map {
    open spec fn fits(m: Seq<(i8, i16)>) -> bool {
        m.len() <= i8::MAX && distinct_keys(m)
    }

    proof fn lemma_default_fits() {
    }

    proof fn lemma_model_roundtrip(m: Seq<(i8, i16)>, rest: Seq<u8>) {
        lemma_vec_roundtrip::<(i8, i16)>(VecArgsLength::I8, m, rest);
        assert(fixed_items(m, m.len(), <(i8, i16)>::spec_default()) =~= m);
    }
}

} // verus!
