//! Chapters of stages in their generic layout: counts of chapters, stages
//! and stars, then which stage is selected, the clear progress, the stage
//! records and the unlock state of each chapter.

use vstd::prelude::*;
use crate::save::event::first_len;
use crate::stream::{Codec, Readable, Reader, StreamError, StreamErrorKind, StreamResult, Writable, Writer, read_result};
use crate::stream::lists::{
    always_writable, bounded, fixed_items, is_grid2, lemma_grid2_roundtrip, lemma_list_roundtrip,
    lemma_read_list_bounds, lemma_read_list_step, lemma_vec2_reader_bounded, lemma_write_list_push,
    prepend, read_list, read_result_view, read_vec2, spec_read_vec2, spec_write_vec2, vec2_reader_at,
    vec2_view, vec2_writable, write_list, write_vec2, VecArgs, VecArgsLength,
};

verus! {

/* Counts */

/// The integer kind a count is stored as.
#[derive(Debug, Copy, Clone, PartialEq, Eq, Structural)]
pub enum LengthType {
    I8,
    I16,
    I32,
}

/// The signed value of a count of the given kind.
pub open spec fn spec_read_length_value(t: LengthType, bytes: Seq<u8>) -> Option<(int, int)> {
    match t {
        LengthType::I8 => match i8::spec_read(bytes) {
            Some((x, k)) => Some((x as int, k)),
            None => None,
        },
        LengthType::I16 => match i16::spec_read(bytes) {
            Some((x, k)) => Some((x as int, k)),
            None => None,
        },
        LengthType::I32 => match i32::spec_read(bytes) {
            Some((x, k)) => Some((x as int, k)),
            None => None,
        },
    }
}

/// The bytes of a count: `length` cut to the kind.
#[verifier::opaque]
pub open spec fn spec_write_length_type(t: LengthType, length: usize) -> Seq<u8> {
    match t {
        LengthType::I8 => (length as i8).spec_write(),
        LengthType::I16 => (length as i16).spec_write(),
        LengthType::I32 => (length as i32).spec_write(),
    }
}

/// Whether a count reads back as itself from its kind.
pub open spec fn length_type_fits(t: LengthType, n: nat) -> bool {
    match t {
        LengthType::I8 => n <= i8::MAX,
        LengthType::I16 => n <= i16::MAX,
        LengthType::I32 => n <= i32::MAX,
    }
}

/// A count as chapters read it: a negative one is refused.
#[verifier::opaque]
pub open spec fn spec_read_count(t: LengthType, bytes: Seq<u8>) -> Option<(usize, int)> {
    match spec_read_length_value(t, bytes) {
        Some((v, k)) => if v >= 0 {
            Some((v as usize, k))
        } else {
            None
        },
        None => None,
    }
}

pub proof fn lemma_count_bounds(t: LengthType, bytes: Seq<u8>)
    ensures
        spec_read_length_value(t, bytes) matches Some((v, k)) ==> 0 <= k <= bytes.len() && i32::MIN <= v
            <= i32::MAX,
        spec_read_count(t, bytes) matches Some((v, k)) ==> 0 <= k <= bytes.len() && v <= i32::MAX,
{
    reveal(spec_read_count);
    i8::lemma_read_bounds(bytes);
    i16::lemma_read_bounds(bytes);
    i32::lemma_read_bounds(bytes);
}

/// A count that fits its kind reads back as itself.
pub proof fn lemma_count_roundtrip(t: LengthType, n: usize, rest: Seq<u8>)
    requires
        length_type_fits(t, n as nat),
    ensures
        spec_read_count(t, spec_write_length_type(t, n) + rest) == Some(
            (n, spec_write_length_type(t, n).len() as int),
        ),
{
    reveal(spec_read_count);
    reveal(spec_write_length_type);
    match t {
        LengthType::I8 => i8::lemma_roundtrip(n as i8, rest),
        LengthType::I16 => i16::lemma_roundtrip(n as i16, rest),
        LengthType::I32 => i32::lemma_roundtrip(n as i32, rest),
    }
}

impl LengthType {
    fn read_value(&self, r: &mut Reader) -> (res: StreamResult<i32>)
        ensures
            read_result(
                *old(r),
                *final(r),
                res,
                match spec_read_length_value(*self, old(r).rest()) {
                    Some((v, k)) => Some((v as i32, k)),
                    None => None,
                },
            ),
    {
        match self {
            LengthType::I8 => Ok(i8::read(r)? as i32),
            LengthType::I16 => Ok(i16::read(r)? as i32),
            LengthType::I32 => Ok(i32::read(r)?),
        }
    }

    /// Reads a count of this kind, widened to `usize` as Rust's `as` does
    /// (so a negative count wraps).
    pub fn read_usize(&self, r: &mut Reader) -> (res: StreamResult<usize>)
        ensures
            read_result(
                *old(r),
                *final(r),
                res,
                match spec_read_length_value(*self, old(r).rest()) {
                    Some((v, k)) => Some((v as usize, k)),
                    None => None,
                },
            ),
    {
        proof {
            lemma_count_bounds(*self, old(r).rest());
        }
        let v = self.read_value(r)?;
        Ok(v as usize)
    }

    /// Writes `length` as a count of this kind, cut to it.
    pub fn write_usize(&self, w: &mut Writer, length: usize)
        ensures
            final(w).bytes() == old(w).bytes() + spec_write_length_type(*self, length),
    {
        reveal(spec_write_length_type);
        match self {
            LengthType::I8 => (length as i8).write(w),
            LengthType::I16 => (length as i16).write(w),
            LengthType::I32 => (length as i32).write(w),
        }
    }

    /// Reads a count for chapters; a negative count is an error.
    fn read_count(&self, r: &mut Reader) -> (res: StreamResult<usize>)
        ensures
            read_result(*old(r), *final(r), res, spec_read_count(*self, old(r).rest())),
            res is Ok ==> old(r).position() <= final(r).position(),
    {
        proof {
            lemma_count_bounds(*self, old(r).rest());
            reveal(spec_read_count);
        }
        let pos = r.stream_position();
        let v = self.read_value(r)?;
        if v < 0 {
            Err(StreamError::new(StreamErrorKind::NegativeLength, pos as u64))
        } else {
            Ok(v as usize)
        }
    }
}

/// How chapters are laid out: whether the counts come again before every
/// part, and the kind of each count.
#[derive(Debug, Copy, Clone)]
pub struct GenericChapterArgs {
    pub read_length_every_time: bool,
    pub total_chapters_type: LengthType,
    pub total_stages_type: LengthType,
    pub total_stars_type: LengthType,
}

impl GenericChapterArgs {
    /// All counts 32-bit.
    pub fn new_int(read_length_every_time: bool) -> (a: Self)
        ensures
            a.read_length_every_time == read_length_every_time,
            a.total_chapters_type == LengthType::I32,
            a.total_stages_type == LengthType::I32,
            a.total_stars_type == LengthType::I32,
    {
        GenericChapterArgs {
            read_length_every_time,
            total_chapters_type: LengthType::I32,
            total_stages_type: LengthType::I32,
            total_stars_type: LengthType::I32,
        }
    }
}

/* The stage records of a chapter */

/// Stage records, which know how many stages they hold.
pub trait TotalStages: Sized {
    /// What the records hold, as a mathematical value.
    type Model;

    spec fn model(&self) -> Self::Model;

    /// The number of stages of records with the given contents.
    spec fn model_total(m: Self::Model) -> nat;

    fn total(&self) -> (n: usize)
        ensures
            n == Self::model_total(self.model()),
    ;
}

/// Stage records laid out with a given number of stages and of stars.
pub trait StageRecord: TotalStages {
    /// What reading records of `stages` stages and `stars` stars yields.
    spec fn spec_read_stages(stages: usize, stars: usize, bytes: Seq<u8>) -> Option<(Self::Model, int)>;

    /// The bytes written for records with the given contents.
    spec fn spec_write_stages(m: Self::Model, stages: usize, stars: usize) -> Seq<u8>;

    /// Whether records with the given contents can be written.
    spec fn writable(m: Self::Model) -> bool;

    /// Whether records have exactly the given numbers of stages and stars.
    spec fn shaped(m: Self::Model, stages: usize, stars: usize) -> bool;

    /// The contents of empty records.
    spec fn default_model() -> Self::Model;

    proof fn lemma_read_bounds(stages: usize, stars: usize, bytes: Seq<u8>)
        ensures
            Self::spec_read_stages(stages, stars, bytes) matches Some((_, k)) ==> 0 <= k <= bytes.len(),
    ;

    proof fn lemma_default()
        ensures
            Self::writable(Self::default_model()),
            Self::model_total(Self::default_model()) == 0,
    ;

    /// Records of exactly the given shape read back as themselves.
    proof fn lemma_roundtrip(m: Self::Model, stages: usize, stars: usize, rest: Seq<u8>)
        requires
            Self::shaped(m, stages, stars),
        ensures
            Self::writable(m),
            Self::model_total(m) == stages,
            Self::spec_read_stages(stages, stars, Self::spec_write_stages(m, stages, stars) + rest)
                == Some((m, Self::spec_write_stages(m, stages, stars).len() as int)),
    ;

    fn read_stages(r: &mut Reader, stages: usize, stars: usize) -> (res: StreamResult<Self>)
        ensures
            read_result_view(
                *old(r),
                *final(r),
                res,
                Self::spec_read_stages(stages, stars, old(r).rest()),
                |s: Self| s.model(),
            ),
    ;

    fn write_stages(&self, w: &mut Writer, stages: usize, stars: usize)
        requires
            Self::writable(self.model()),
        ensures
            final(w).bytes() == old(w).bytes() + Self::spec_write_stages(self.model(), stages, stars),
    ;

    fn default_stages() -> (d: Self)
        ensures
            d.model() == Self::default_model(),
    ;
}

impl<T> TotalStages for Vec<Vec<T>> {
    type Model = Seq<Seq<T>>;

    open spec fn model(&self) -> Seq<Seq<T>> {
        vec2_view()(*self)
    }

    open spec fn model_total(m: Seq<Seq<T>>) -> nat {
        m.len()
    }

    fn total(&self) -> (n: usize) {
        self.len()
    }
}

impl<T: Codec> StageRecord for Vec<Vec<T>> {
    open spec fn spec_read_stages(stages: usize, stars: usize, bytes: Seq<u8>) -> Option<(Seq<Seq<T>>, int)> {
        spec_read_vec2::<T>(VecArgsLength::Fixed(stages), VecArgsLength::Fixed(stars), bytes)
    }

    open spec fn spec_write_stages(m: Seq<Seq<T>>, stages: usize, stars: usize) -> Seq<u8> {
        spec_write_vec2::<T>(VecArgsLength::Fixed(stages), VecArgsLength::Fixed(stars), m)
    }

    open spec fn writable(m: Seq<Seq<T>>) -> bool {
        forall|i: int, j: int| 0 <= i < m.len() && 0 <= j < m[i].len() ==> #[trigger] m[i][j].can_write()
    }

    open spec fn shaped(m: Seq<Seq<T>>, stages: usize, stars: usize) -> bool {
        &&& is_grid2(m, stages as nat, stars as nat)
        &&& always_writable::<T>()
    }

    open spec fn default_model() -> Seq<Seq<T>> {
        Seq::empty()
    }

    proof fn lemma_read_bounds(stages: usize, stars: usize, bytes: Seq<u8>) {
        lemma_vec2_reader_bounded::<T>(VecArgsLength::Fixed(stages), VecArgsLength::Fixed(stars));
        assert(vec2_reader_at::<T>(VecArgsLength::Fixed(stages), VecArgsLength::Fixed(stars))(bytes)
            == spec_read_vec2::<T>(VecArgsLength::Fixed(stages), VecArgsLength::Fixed(stars), bytes));
    }

    proof fn lemma_default() {
    }

    proof fn lemma_roundtrip(m: Seq<Seq<T>>, stages: usize, stars: usize, rest: Seq<u8>) {
        lemma_grid2_roundtrip::<T>(m, stages, stars, rest);
    }

    fn read_stages(r: &mut Reader, stages: usize, stars: usize) -> (res: StreamResult<Self>) {
        let args = VecArgs {
            length: VecArgsLength::Fixed(stages),
            item: VecArgs::new_empty_fixed(stars),
        };
        read_vec2::<T>(r, args)
    }

    fn write_stages(&self, w: &mut Writer, stages: usize, stars: usize) {
        let args = VecArgs {
            length: VecArgsLength::Fixed(stages),
            item: VecArgs::new_empty_fixed(stars),
        };
        write_vec2::<T>(w, self, args);
    }

    fn default_stages() -> (d: Self) {
        let d: Vec<Vec<T>> = Vec::new();
        assert(vec2_view()(d) =~= Seq::<Seq<T>>::empty());
        d
    }
}

/* Lists of stage records */

pub open spec fn stage_reader<S: StageRecord>(stages: usize, stars: usize) -> spec_fn(Seq<u8>) -> Option<(S::Model, int)> {
    |b: Seq<u8>| S::spec_read_stages(stages, stars, b)
}

pub open spec fn stage_writer<S: StageRecord>(stages: usize, stars: usize) -> spec_fn(S::Model) -> Seq<u8> {
    |m: S::Model| S::spec_write_stages(m, stages, stars)
}

/// The contents of each record.
pub open spec fn stage_models<S: TotalStages>(v: Seq<S>) -> Seq<S::Model> {
    v.map_values(|x: S| x.model())
}

pub open spec fn stage_list_view<S: TotalStages>() -> spec_fn(Vec<S>) -> Seq<S::Model> {
    |v: Vec<S>| stage_models(v@)
}

/// The bytes written for `n` records: those at hand, cut or padded with
/// empty ones.
pub open spec fn spec_write_stage_list<S: StageRecord>(s: Seq<S::Model>, n: usize, stages: usize, stars: usize) -> Seq<u8> {
    write_list(stage_writer::<S>(stages, stars), fixed_items(s, n as nat, S::default_model()))
}

pub proof fn lemma_stage_reader_bounded<S: StageRecord>(stages: usize, stars: usize)
    ensures
        bounded(stage_reader::<S>(stages, stars)),
{
    assert forall|b: Seq<u8>|
        (#[trigger] stage_reader::<S>(stages, stars)(b) matches Some((_, k)) ==> 0 <= k <= b.len()) by {
        S::lemma_read_bounds(stages, stars, b);
    }
}

/// Reads `n` records.
pub fn read_stage_list<S: StageRecord>(r: &mut Reader, n: usize, stages: usize, stars: usize) -> (res: StreamResult<Vec<S>>)
    ensures
        read_result_view(
            *old(r),
            *final(r),
            res,
            read_list(stage_reader::<S>(stages, stars), old(r).rest(), n as nat),
            stage_list_view::<S>(),
        ),
        res is Ok ==> old(r).position() <= final(r).position(),
{
    let ghost start = *old(r);
    let ghost bytes = old(r).rest();
    let ghost f = stage_reader::<S>(stages, stars);
    let _ = r.remaining();
    proof {
        lemma_stage_reader_bounded::<S>(stages, stars);
        lemma_read_list_bounds(f, bytes, n as nat);
        assert(bytes.skip(0) =~= bytes);
        if let Some((vs, k)) = read_list(f, bytes, n as nat) {
            assert(Seq::<S::Model>::empty() + vs =~= vs);
        }
    }
    let mut items: Vec<S> = Vec::new();
    let mut i: usize = 0;
    let ghost mut c: int = 0;
    while i < n
        invariant
            start == *old(r),
            bytes == start.rest(),
            f == stage_reader::<S>(stages, stars),
            bounded(f),
            0 <= i <= n,
            0 <= c <= bytes.len(),
            r.bytes() == start.bytes(),
            r.in_bounds(),
            start.in_bounds(),
            r.position() == start.position() + c,
            r.rest() == bytes.skip(c),
            read_list(f, bytes, n as nat) == prepend(
                stage_models(items@),
                c,
                read_list(f, bytes.skip(c), (n - i) as nat),
            ),
        decreases n - i,
    {
        let ghost before = *r;
        let item = match S::read_stages(r, stages, stars) {
            Ok(item) => item,
            Err(e) => {
                return Err(e);
            },
        };
        proof {
            let k = r.position() - before.position();
            assert(f(bytes.skip(c)) == Some((item.model(), k)));
            lemma_read_list_step(f, bytes, stage_models(items@), c, (n - i) as nat, item.model(), k);
            c = c + k;
        }
        let ghost old_items = items@;
        items.push(item);
        proof {
            assert(stage_models(items@) =~= stage_models(old_items).push(item.model()));
        }
        i = i + 1;
    }
    proof {
        assert(stage_models(items@) + Seq::<S::Model>::empty() =~= stage_models(items@));
    }
    Ok(items)
}

/// Writes `n` records: those at hand, cut or padded with empty ones.
pub fn write_stage_list<S: StageRecord>(w: &mut Writer, items: &Vec<S>, n: usize, stages: usize, stars: usize)
    requires
        forall|i: int| 0 <= i < items@.len() ==> S::writable(#[trigger] items@[i].model()),
    ensures
        final(w).bytes() == old(w).bytes() + spec_write_stage_list::<S>(stage_models(items@), n, stages, stars),
{
    let ghost s = stage_models(items@);
    let ghost g = stage_writer::<S>(stages, stars);
    let ghost t = fixed_items(s, n as nat, S::default_model());
    let mut i: usize = 0;
    proof {
        S::lemma_default();
        assert(t.take(0) =~= Seq::<S::Model>::empty());
        assert(old(w).bytes() + Seq::<u8>::empty() =~= old(w).bytes());
    }
    while i < n
        invariant
            s == stage_models(items@),
            g == stage_writer::<S>(stages, stars),
            t == fixed_items(s, n as nat, S::default_model()),
            t.len() == n,
            S::writable(S::default_model()),
            forall|j: int| 0 <= j < items@.len() ==> S::writable(#[trigger] items@[j].model()),
            0 <= i <= n,
            w.bytes() == old(w).bytes() + write_list(g, t.take(i as int)),
        decreases n - i,
    {
        if i < items.len() {
            assert(t[i as int] == items@[i as int].model());
            items[i].write_stages(w, stages, stars);
        } else {
            let d = S::default_stages();
            assert(t[i as int] == d.model());
            d.write_stages(w, stages, stars);
        }
        proof {
            lemma_write_list_push(g, t.take(i as int), t[i as int]);
            assert(t.take(i as int).push(t[i as int]) =~= t.take(i + 1));
        }
        i = i + 1;
    }
    assert(t.take(n as int) =~= t);
}

/// Records of exactly the given shape, as many as the count, read back as themselves.
pub proof fn lemma_stage_list_roundtrip<S: StageRecord>(
    s: Seq<S::Model>,
    n: usize,
    stages: usize,
    stars: usize,
    rest: Seq<u8>,
)
    requires
        s.len() == n,
        forall|i: int| 0 <= i < s.len() ==> S::shaped(#[trigger] s[i], stages, stars),
    ensures
        read_list(stage_reader::<S>(stages, stars), spec_write_stage_list::<S>(s, n, stages, stars) + rest, n as nat)
            == Some((s, spec_write_stage_list::<S>(s, n, stages, stars).len() as int)),
{
    let f = stage_reader::<S>(stages, stars);
    let g = stage_writer::<S>(stages, stars);
    let h = |m: S::Model| m;
    assert(fixed_items(s, n as nat, S::default_model()) =~= s);
    assert forall|i: int, r: Seq<u8>| 0 <= i < s.len() implies #[trigger] f(g(s[i]) + r) == Some(
        (h(s[i]), g(s[i]).len() as int),
    ) by {
        S::lemma_roundtrip(s[i], stages, stars, r);
    }
    lemma_list_roundtrip(f, g, h, s, rest);
    assert(s.map_values(h) =~= s);
}

/* Grids of chapters by stars */

/// Reading a grid of `c` rows of `s` values.
#[verifier::opaque]
pub open spec fn grid2_read<T: Readable>(c: usize, s: usize, bytes: Seq<u8>) -> Option<(Seq<Seq<T>>, int)> {
    spec_read_vec2::<T>(VecArgsLength::Fixed(c), VecArgsLength::Fixed(s), bytes)
}

/// The bytes of a grid cut or padded to `c` rows of `s` values.
#[verifier::opaque]
pub open spec fn grid2_write<T: Writable>(c: usize, s: usize, g: Seq<Seq<T>>) -> Seq<u8> {
    spec_write_vec2::<T>(VecArgsLength::Fixed(c), VecArgsLength::Fixed(s), g)
}

fn read_grid2<T: Readable>(r: &mut Reader, c: usize, s: usize) -> (res: StreamResult<Vec<Vec<T>>>)
    ensures
        read_result_view(*old(r), *final(r), res, grid2_read::<T>(c, s, old(r).rest()), vec2_view::<T>()),
        res is Ok ==> old(r).position() <= final(r).position(),
{
    reveal(grid2_read);
    let ghost start = *old(r);
    proof {
        lemma_vec2_reader_bounded::<T>(VecArgsLength::Fixed(c), VecArgsLength::Fixed(s));
        assert(vec2_reader_at::<T>(VecArgsLength::Fixed(c), VecArgsLength::Fixed(s))(start.rest())
            == spec_read_vec2::<T>(VecArgsLength::Fixed(c), VecArgsLength::Fixed(s), start.rest()));
    }
    read_vec2::<T>(r, VecArgs { length: VecArgsLength::Fixed(c), item: VecArgs::new_empty_fixed(s) })
}

fn write_grid2<T: Writable>(w: &mut Writer, g: &Vec<Vec<T>>, c: usize, s: usize)
    requires
        always_writable::<T>(),
    ensures
        final(w).bytes() == old(w).bytes() + grid2_write::<T>(c, s, vec2_view()(*g)),
{
    reveal(grid2_write);
    write_vec2::<T>(w, g, VecArgs { length: VecArgsLength::Fixed(c), item: VecArgs::new_empty_fixed(s) });
}

proof fn lemma_grid2_rt<T: Codec>(g: Seq<Seq<T>>, c: usize, s: usize, rest: Seq<u8>)
    requires
        always_writable::<T>(),
        is_grid2(g, c as nat, s as nat),
    ensures
        grid2_read::<T>(c, s, grid2_write::<T>(c, s, g) + rest) == Some((g, grid2_write::<T>(c, s, g).len() as int)),
{
    reveal(grid2_read);
    reveal(grid2_write);
    lemma_grid2_roundtrip::<T>(g, c, s, rest);
}

/* Counts in front of each part */

pub open spec fn spec_read_counts2(t1: LengthType, t2: LengthType, bytes: Seq<u8>) -> Option<((usize, usize), int)> {
    match spec_read_count(t1, bytes) {
        Some((a, k1)) => match spec_read_count(t2, bytes.skip(k1)) {
            Some((b, k2)) => Some(((a, b), k1 + k2)),
            None => None,
        },
        None => None,
    }
}

pub open spec fn spec_read_counts3(t1: LengthType, t2: LengthType, t3: LengthType, bytes: Seq<u8>) -> Option<
    ((usize, usize, usize), int),
> {
    match spec_read_counts2(t1, t2, bytes) {
        Some(((a, b), k1)) => match spec_read_count(t3, bytes.skip(k1)) {
            Some((c, k2)) => Some(((a, b, c), k1 + k2)),
            None => None,
        },
        None => None,
    }
}

fn read_counts2(r: &mut Reader, t1: LengthType, t2: LengthType) -> (res: StreamResult<(usize, usize)>)
    ensures
        read_result(*old(r), *final(r), res, spec_read_counts2(t1, t2, old(r).rest())),
        res is Ok ==> old(r).position() <= final(r).position(),
{
    let ghost start = *old(r);
    let _ = r.remaining();
    let a = t1.read_count(r)?;
    proof {
        Reader::lemma_rest_skip(start, *r);
    }
    let b = t2.read_count(r)?;
    Ok((a, b))
}

fn read_counts3(r: &mut Reader, t1: LengthType, t2: LengthType, t3: LengthType) -> (res: StreamResult<
    (usize, usize, usize),
>)
    ensures
        read_result(*old(r), *final(r), res, spec_read_counts3(t1, t2, t3, old(r).rest())),
        res is Ok ==> old(r).position() <= final(r).position(),
{
    let ghost start = *old(r);
    let _ = r.remaining();
    let (a, b) = read_counts2(r, t1, t2)?;
    proof {
        Reader::lemma_rest_skip(start, *r);
    }
    let c = t3.read_count(r)?;
    Ok((a, b, c))
}

/// The counts before the first part: chapters and stars where the layout
/// repeats the counts before every part (the stages come later then), else
/// chapters, stages and stars.
pub open spec fn spec_read_first_counts(args: GenericChapterArgs, bytes: Seq<u8>) -> Option<((usize, usize, usize), int)> {
    if args.read_length_every_time {
        match spec_read_counts2(args.total_chapters_type, args.total_stars_type, bytes) {
            Some(((c, s), k)) => Some(((c, 0usize, s), k)),
            None => None,
        }
    } else {
        spec_read_counts3(args.total_chapters_type, args.total_stages_type, args.total_stars_type, bytes)
    }
}

/// Chapters and stars before a later part: read again where the layout
/// repeats them, else those already known.
pub open spec fn spec_read_again2(args: GenericChapterArgs, c: usize, s: usize, bytes: Seq<u8>) -> Option<((usize, usize), int)> {
    if args.read_length_every_time {
        spec_read_counts2(args.total_chapters_type, args.total_stars_type, bytes)
    } else {
        Some(((c, s), 0))
    }
}

/// Chapters, stages and stars before the stage records.
pub open spec fn spec_read_again3(args: GenericChapterArgs, c: usize, t: usize, s: usize, bytes: Seq<u8>) -> Option<
    ((usize, usize, usize), int),
> {
    if args.read_length_every_time {
        spec_read_counts3(args.total_chapters_type, args.total_stages_type, args.total_stars_type, bytes)
    } else {
        Some(((c, t, s), 0))
    }
}

pub open spec fn spec_write_counts2(args: GenericChapterArgs, c: usize, s: usize) -> Seq<u8> {
    spec_write_length_type(args.total_chapters_type, c) + spec_write_length_type(args.total_stars_type, s)
}

pub open spec fn spec_write_counts3(args: GenericChapterArgs, c: usize, t: usize, s: usize) -> Seq<u8> {
    spec_write_length_type(args.total_chapters_type, c) + spec_write_length_type(args.total_stages_type, t)
        + spec_write_length_type(args.total_stars_type, s)
}

/* Chapters */

/// Chapters of stages: per chapter, the selected stage and the clear
/// progress for each star level, the stage records, and the unlock state.
#[derive(Debug, Clone)]
pub struct ChaptersGeneric<SEL, PROG, STAG, UNLCK> {
    pub selected_stages: Vec<Vec<SEL>>,
    pub clear_progress: Vec<Vec<PROG>>,
    pub stages: Vec<STAG>,
    pub unlock_state: Vec<Vec<UNLCK>>,
}

/// Selection, clear progress, stage record contents and unlock state.
pub type ChaptersView<SEL, PROG, M, UNLCK> = (Seq<Seq<SEL>>, Seq<Seq<PROG>>, Seq<M>, Seq<Seq<UNLCK>>);

impl<SEL, PROG, STAG: TotalStages, UNLCK> View for ChaptersGeneric<SEL, PROG, STAG, UNLCK> {
    type V = ChaptersView<SEL, PROG, STAG::Model, UNLCK>;

    open spec fn view(&self) -> ChaptersView<SEL, PROG, STAG::Model, UNLCK> {
        (
            vec2_view()(self.selected_stages),
            vec2_view()(self.clear_progress),
            stage_models(self.stages@),
            vec2_view()(self.unlock_state),
        )
    }
}

pub open spec fn chapters_view<SEL, PROG, STAG: TotalStages, UNLCK>() -> spec_fn(
    ChaptersGeneric<SEL, PROG, STAG, UNLCK>,
) -> ChaptersView<SEL, PROG, STAG::Model, UNLCK> {
    |x: ChaptersGeneric<SEL, PROG, STAG, UNLCK>| x@
}

/// The number of stages of the first chapter's records, or 0 without chapters.
pub open spec fn chapters_total_stages<S: TotalStages>(stg: Seq<S::Model>) -> nat {
    if stg.len() > 0 {
        S::model_total(stg[0])
    } else {
        0
    }
}

impl<SEL, PROG, STAG, UNLCK> ChaptersGeneric<SEL, PROG, STAG, UNLCK> {
    pub fn total_chapters(&self) -> (n: usize)
        ensures
            n == self.selected_stages@.len(),
    {
        self.selected_stages.len()
    }

    /// The number of star levels: the length of the first chapter's selection.
    pub fn total_stars(&self) -> (n: usize)
        ensures
            n == first_len(vec2_view()(self.selected_stages)),
    {
        if self.selected_stages.len() > 0 {
            self.selected_stages[0].len()
        } else {
            0
        }
    }
}

impl<SEL, PROG, STAG: StageRecord, UNLCK> ChaptersGeneric<SEL, PROG, STAG, UNLCK> {
    /// The number of stages: that of the first chapter's records.
    pub fn total_stages(&self) -> (n: usize)
        ensures
            n == chapters_total_stages::<STAG>(stage_models(self.stages@)),
    {
        if self.stages.len() > 0 {
            self.stages[0].total()
        } else {
            let d = STAG::default_stages();
            proof {
                STAG::lemma_default();
            }
            d.total()
        }
    }
}

/// The first half of chapters: counts, selection, counts again where the
/// layout repeats them, clear progress. Yields the counts in force after it.
#[verifier::opaque]
pub open spec fn spec_read_chapters_head<SEL: Readable, PROG: Readable>(args: GenericChapterArgs, bytes: Seq<u8>) -> Option<
    ((usize, usize, usize, Seq<Seq<SEL>>, Seq<Seq<PROG>>), int),
> {
    match spec_read_first_counts(args, bytes) {
        Some(((c1, t1, s1), k1)) => match grid2_read::<SEL>(c1, s1, bytes.skip(k1)) {
            Some((sel, k2)) => match spec_read_again2(args, c1, s1, bytes.skip(k1 + k2)) {
                Some(((c2, s2), k3)) => match grid2_read::<PROG>(c2, s2, bytes.skip(k1 + k2 + k3)) {
                    Some((prog, k4)) => Some(((c2, t1, s2, sel, prog), k1 + k2 + k3 + k4)),
                    None => None,
                },
                None => None,
            },
            None => None,
        },
        None => None,
    }
}

/// The second half of chapters, given the counts in force: counts again
/// where the layout repeats them, the stage records, counts again, the
/// unlock state.
#[verifier::opaque]
pub open spec fn spec_read_chapters_tail<STAG: StageRecord, UNLCK: Readable>(
    args: GenericChapterArgs,
    c: usize,
    t: usize,
    s: usize,
    bytes: Seq<u8>,
) -> Option<((Seq<STAG::Model>, Seq<Seq<UNLCK>>), int)> {
    match spec_read_again3(args, c, t, s, bytes) {
        Some(((c3, t3, s3), k5)) => match read_list(stage_reader::<STAG>(t3, s3), bytes.skip(k5), c3 as nat) {
            Some((stg, k6)) => match spec_read_again2(args, c3, s3, bytes.skip(k5 + k6)) {
                Some(((c4, s4), k7)) => match grid2_read::<UNLCK>(c4, s4, bytes.skip(k5 + k6 + k7)) {
                    Some((unl, k8)) => Some(((stg, unl), k5 + k6 + k7 + k8)),
                    None => None,
                },
                None => None,
            },
            None => None,
        },
        None => None,
    }
}

/// What reading chapters yields.
pub open spec fn spec_read_chapters<SEL: Readable, PROG: Readable, STAG: StageRecord, UNLCK: Readable>(
    args: GenericChapterArgs,
    bytes: Seq<u8>,
) -> Option<(ChaptersView<SEL, PROG, STAG::Model, UNLCK>, int)> {
    match spec_read_chapters_head::<SEL, PROG>(args, bytes) {
        Some(((c, t, s, sel, prog), k1)) => match spec_read_chapters_tail::<STAG, UNLCK>(args, c, t, s, bytes.skip(k1)) {
            Some(((stg, unl), k2)) => Some(((sel, prog, stg, unl), k1 + k2)),
            None => None,
        },
        None => None,
    }
}

/// The bytes of the first half of chapters, for counts `c`, `t`, `s`.
pub open spec fn spec_write_chapters_head<SEL: Writable, PROG: Writable>(
    args: GenericChapterArgs,
    c: usize,
    t: usize,
    s: usize,
    sel: Seq<Seq<SEL>>,
    prog: Seq<Seq<PROG>>,
) -> Seq<u8> {
    let every = args.read_length_every_time;
    let first = if every { spec_write_counts2(args, c, s) } else { spec_write_counts3(args, c, t, s) };
    let h2 = if every { spec_write_counts2(args, c, s) } else { Seq::empty() };
    first + grid2_write::<SEL>(c, s, sel) + h2
        + grid2_write::<PROG>(c, s, prog)
}

/// The bytes of the second half of chapters, for counts `c`, `t`, `s`.
pub open spec fn spec_write_chapters_tail<STAG: StageRecord, UNLCK: Writable>(
    args: GenericChapterArgs,
    c: usize,
    t: usize,
    s: usize,
    stg: Seq<STAG::Model>,
    unl: Seq<Seq<UNLCK>>,
) -> Seq<u8> {
    let every = args.read_length_every_time;
    let h2 = if every { spec_write_counts2(args, c, s) } else { Seq::empty() };
    let h3 = if every { spec_write_counts3(args, c, t, s) } else { Seq::empty() };
    h3 + spec_write_stage_list::<STAG>(stg, c, t, s) + h2 + grid2_write::<UNLCK>(c, s, unl)
}

/// The counts chapters are written with, from the data: chapters and stars
/// from the selection, stages from the first chapter's records.
pub open spec fn chapters_dims<SEL, PROG, STAG: TotalStages, UNLCK>(v: ChaptersView<SEL, PROG, STAG::Model, UNLCK>) -> (
    usize,
    usize,
    usize,
) {
    (v.0.len() as usize, chapters_total_stages::<STAG>(v.2) as usize, first_len(v.0) as usize)
}

/// The bytes written for chapters: each part is cut or padded to the counts.
pub open spec fn spec_write_chapters<SEL: Writable, PROG: Writable, STAG: StageRecord, UNLCK: Writable>(
    args: GenericChapterArgs,
    v: ChaptersView<SEL, PROG, STAG::Model, UNLCK>,
) -> Seq<u8> {
    let (c, t, s) = chapters_dims::<SEL, PROG, STAG, UNLCK>(v);
    spec_write_chapters_head::<SEL, PROG>(args, c, t, s, v.0, v.1) + spec_write_chapters_tail::<
        STAG,
        UNLCK,
    >(args, c, t, s, v.2, v.3)
}

fn write_counts2(w: &mut Writer, args: GenericChapterArgs, c: usize, s: usize)
    ensures
        final(w).bytes() == old(w).bytes() + spec_write_counts2(args, c, s),
{
    args.total_chapters_type.write_usize(w, c);
    args.total_stars_type.write_usize(w, s);
    assert(w.bytes() =~= old(w).bytes() + spec_write_counts2(args, c, s));
}

fn write_counts3(w: &mut Writer, args: GenericChapterArgs, c: usize, t: usize, s: usize)
    ensures
        final(w).bytes() == old(w).bytes() + spec_write_counts3(args, c, t, s),
{
    args.total_chapters_type.write_usize(w, c);
    args.total_stages_type.write_usize(w, t);
    args.total_stars_type.write_usize(w, s);
    assert(w.bytes() =~= old(w).bytes() + spec_write_counts3(args, c, t, s));
}

fn write_chapters_head<SEL: Writable, PROG: Writable>(
    w: &mut Writer,
    args: GenericChapterArgs,
    c: usize,
    t: usize,
    s: usize,
    sel: &Vec<Vec<SEL>>,
    prog: &Vec<Vec<PROG>>,
)
    requires
        always_writable::<SEL>(),
        always_writable::<PROG>(),
    ensures
        final(w).bytes() == old(w).bytes() + spec_write_chapters_head::<SEL, PROG>(
            args,
            c,
            t,
            s,
            vec2_view()(*sel),
            vec2_view()(*prog),
        ),
{
    if args.read_length_every_time {
        write_counts2(w, args, c, s);
    } else {
        write_counts3(w, args, c, t, s);
    }
    let ghost w1 = w.bytes();
    write_grid2::<SEL>(w, sel, c, s);
    let ghost w2 = w.bytes();
    if args.read_length_every_time {
        write_counts2(w, args, c, s);
    }
    let ghost w3 = w.bytes();
    write_grid2::<PROG>(w, prog, c, s);
    assert(w.bytes() =~= old(w).bytes() + spec_write_chapters_head::<SEL, PROG>(
        args,
        c,
        t,
        s,
        vec2_view()(*sel),
        vec2_view()(*prog),
    ));
}

fn write_chapters_tail<STAG: StageRecord, UNLCK: Writable>(
    w: &mut Writer,
    args: GenericChapterArgs,
    c: usize,
    t: usize,
    s: usize,
    stages: &Vec<STAG>,
    unl: &Vec<Vec<UNLCK>>,
)
    requires
        always_writable::<UNLCK>(),
        forall|i: int| 0 <= i < stages@.len() ==> STAG::writable(#[trigger] stages@[i].model()),
    ensures
        final(w).bytes() == old(w).bytes() + spec_write_chapters_tail::<STAG, UNLCK>(
            args,
            c,
            t,
            s,
            stage_models(stages@),
            vec2_view()(*unl),
        ),
{
    if args.read_length_every_time {
        write_counts3(w, args, c, t, s);
    }
    write_stage_list::<STAG>(w, stages, c, t, s);
    if args.read_length_every_time {
        write_counts2(w, args, c, s);
    }
    write_grid2::<UNLCK>(w, unl, c, s);
    assert(w.bytes() =~= old(w).bytes() + spec_write_chapters_tail::<STAG, UNLCK>(
        args,
        c,
        t,
        s,
        stage_models(stages@),
        vec2_view()(*unl),
    ));
}

impl<SEL: Writable, PROG: Writable, STAG: StageRecord, UNLCK: Writable> ChaptersGeneric<SEL, PROG, STAG, UNLCK> {
    /// Writes the chapters with counts taken from the data.
    pub fn write(&self, w: &mut Writer, args: GenericChapterArgs)
        requires
            always_writable::<SEL>(),
            always_writable::<PROG>(),
            always_writable::<UNLCK>(),
            forall|i: int| 0 <= i < self.stages@.len() ==> STAG::writable(#[trigger] self.stages@[i].model()),
        ensures
            final(w).bytes() == old(w).bytes() + spec_write_chapters::<SEL, PROG, STAG, UNLCK>(args, self@),
    {
        let total_chapters = self.total_chapters();
        let total_stages = self.total_stages();
        let total_stars = self.total_stars();
        write_chapters_head::<SEL, PROG>(
            w,
            args,
            total_chapters,
            total_stages,
            total_stars,
            &self.selected_stages,
            &self.clear_progress,
        );
        write_chapters_tail::<STAG, UNLCK>(
            w,
            args,
            total_chapters,
            total_stages,
            total_stars,
            &self.stages,
            &self.unlock_state,
        );
        assert(w.bytes() =~= old(w).bytes() + spec_write_chapters::<SEL, PROG, STAG, UNLCK>(args, self@));
    }
}

fn read_chapters_head<SEL: Readable, PROG: Readable>(r: &mut Reader, args: GenericChapterArgs) -> (res: StreamResult<
    (usize, usize, usize, Vec<Vec<SEL>>, Vec<Vec<PROG>>),
>)
    ensures
        read_result_view(
            *old(r),
            *final(r),
            res,
            spec_read_chapters_head::<SEL, PROG>(args, old(r).rest()),
            |x: (usize, usize, usize, Vec<Vec<SEL>>, Vec<Vec<PROG>>)| (x.0, x.1, x.2, vec2_view()(x.3), vec2_view()(x.4)),
        ),
        res is Ok ==> old(r).position() <= final(r).position(),
{
    reveal(spec_read_chapters_head);
    let ghost start = *old(r);
    let _ = r.remaining();
    let (c1, t1, s1) = if args.read_length_every_time {
        let (c, s) = read_counts2(r, args.total_chapters_type, args.total_stars_type)?;
        (c, 0usize, s)
    } else {
        read_counts3(r, args.total_chapters_type, args.total_stages_type, args.total_stars_type)?
    };
    proof {
        Reader::lemma_rest_skip(start, *r);
    }
    let ghost r1 = *r;
    let selected_stages = read_grid2::<SEL>(r, c1, s1)?;
    proof {
        Reader::lemma_rest_skip(start, *r);
    }
    let (c2, s2) = if args.read_length_every_time {
        read_counts2(r, args.total_chapters_type, args.total_stars_type)?
    } else {
        (c1, s1)
    };
    proof {
        Reader::lemma_rest_skip(start, *r);
    }
    let ghost r2 = *r;
    let clear_progress = read_grid2::<PROG>(r, c2, s2)?;
    Ok((c2, t1, s2, selected_stages, clear_progress))
}

fn read_chapters_tail<STAG: StageRecord, UNLCK: Readable>(
    r: &mut Reader,
    args: GenericChapterArgs,
    c: usize,
    t: usize,
    s: usize,
) -> (res: StreamResult<(Vec<STAG>, Vec<Vec<UNLCK>>)>)
    ensures
        read_result_view(
            *old(r),
            *final(r),
            res,
            spec_read_chapters_tail::<STAG, UNLCK>(args, c, t, s, old(r).rest()),
            |x: (Vec<STAG>, Vec<Vec<UNLCK>>)| (stage_models(x.0@), vec2_view()(x.1)),
        ),
        res is Ok ==> old(r).position() <= final(r).position(),
{
    reveal(spec_read_chapters_tail);
    let ghost start = *old(r);
    let _ = r.remaining();
    let (c3, t3, s3) = if args.read_length_every_time {
        read_counts3(r, args.total_chapters_type, args.total_stages_type, args.total_stars_type)?
    } else {
        (c, t, s)
    };
    proof {
        Reader::lemma_rest_skip(start, *r);
    }
    let stages = read_stage_list::<STAG>(r, c3, t3, s3)?;
    proof {
        Reader::lemma_rest_skip(start, *r);
    }
    let (c4, s4) = if args.read_length_every_time {
        read_counts2(r, args.total_chapters_type, args.total_stars_type)?
    } else {
        (c3, s3)
    };
    proof {
        Reader::lemma_rest_skip(start, *r);
    }
    let unlock_state = read_grid2::<UNLCK>(r, c4, s4)?;
    Ok((stages, unlock_state))
}

impl<SEL: Readable, PROG: Readable, STAG: StageRecord, UNLCK: Readable> ChaptersGeneric<SEL, PROG, STAG, UNLCK> {
    pub fn read(r: &mut Reader, args: GenericChapterArgs) -> (res: StreamResult<Self>)
        ensures
            read_result_view(
                *old(r),
                *final(r),
                res,
                spec_read_chapters::<SEL, PROG, STAG, UNLCK>(args, old(r).rest()),
                chapters_view::<SEL, PROG, STAG, UNLCK>(),
            ),
            res is Ok ==> old(r).position() <= final(r).position(),
    {
        let ghost start = *old(r);
        let _ = r.remaining();
        let (c, t, s, selected_stages, clear_progress) = read_chapters_head::<SEL, PROG>(r, args)?;
        proof {
            Reader::lemma_rest_skip(start, *r);
        }
        let (stages, unlock_state) = read_chapters_tail::<STAG, UNLCK>(r, args, c, t, s)?;
        Ok(ChaptersGeneric { selected_stages, clear_progress, stages, unlock_state })
    }
}

/* Reading back what was written */

proof fn lemma_counts2_roundtrip(args: GenericChapterArgs, c: usize, s: usize, rest: Seq<u8>)
    requires
        length_type_fits(args.total_chapters_type, c as nat),
        length_type_fits(args.total_stars_type, s as nat),
    ensures
        spec_read_counts2(args.total_chapters_type, args.total_stars_type, spec_write_counts2(args, c, s) + rest)
            == Some(((c, s), spec_write_counts2(args, c, s).len() as int)),
{
    let a = spec_write_length_type(args.total_chapters_type, c);
    let b = spec_write_length_type(args.total_stars_type, s);
    let bytes = spec_write_counts2(args, c, s) + rest;
    assert(bytes =~= a + (b + rest));
    lemma_count_roundtrip(args.total_chapters_type, c, b + rest);
    assert(bytes.skip(a.len() as int) =~= b + rest);
    lemma_count_roundtrip(args.total_stars_type, s, rest);
}

proof fn lemma_counts3_roundtrip(args: GenericChapterArgs, c: usize, t: usize, s: usize, rest: Seq<u8>)
    requires
        length_type_fits(args.total_chapters_type, c as nat),
        length_type_fits(args.total_stages_type, t as nat),
        length_type_fits(args.total_stars_type, s as nat),
    ensures
        spec_read_counts3(
            args.total_chapters_type,
            args.total_stages_type,
            args.total_stars_type,
            spec_write_counts3(args, c, t, s) + rest,
        ) == Some(((c, t, s), spec_write_counts3(args, c, t, s).len() as int)),
{
    let a = spec_write_length_type(args.total_chapters_type, c);
    let b = spec_write_length_type(args.total_stages_type, t);
    let e = spec_write_length_type(args.total_stars_type, s);
    let bytes = spec_write_counts3(args, c, t, s) + rest;
    assert(bytes =~= a + (b + (e + rest)));
    lemma_count_roundtrip(args.total_chapters_type, c, b + (e + rest));
    assert(bytes.skip(a.len() as int) =~= b + (e + rest));
    lemma_count_roundtrip(args.total_stages_type, t, e + rest);
    assert(bytes.skip((a.len() + b.len()) as int) =~= e + rest);
    lemma_count_roundtrip(args.total_stars_type, s, rest);
    assert((a + b).len() == a.len() + b.len());
    assert(spec_read_counts2(args.total_chapters_type, args.total_stages_type, bytes) == Some(
        ((c, t), (a.len() + b.len()) as int),
    ));
}

proof fn lemma_chapters_head_roundtrip<SEL: Codec, PROG: Codec>(
    args: GenericChapterArgs,
    c: usize,
    t: usize,
    s: usize,
    sel: Seq<Seq<SEL>>,
    prog: Seq<Seq<PROG>>,
    rest: Seq<u8>,
)
    requires
        always_writable::<SEL>(),
        always_writable::<PROG>(),
        is_grid2(sel, c as nat, s as nat),
        is_grid2(prog, c as nat, s as nat),
        length_type_fits(args.total_chapters_type, c as nat),
        length_type_fits(args.total_stages_type, t as nat),
        length_type_fits(args.total_stars_type, s as nat),
    ensures
        spec_read_chapters_head::<SEL, PROG>(args, spec_write_chapters_head::<SEL, PROG>(args, c, t, s, sel, prog) + rest)
            == Some(
            (
                (c, if args.read_length_every_time { 0usize } else { t }, s, sel, prog),
                spec_write_chapters_head::<SEL, PROG>(args, c, t, s, sel, prog).len() as int,
            ),
        ),
{
    reveal(spec_read_chapters_head);
    let every = args.read_length_every_time;
    let first = if every { spec_write_counts2(args, c, s) } else { spec_write_counts3(args, c, t, s) };
    let g1 = grid2_write::<SEL>(c, s, sel);
    let h2 = if every { spec_write_counts2(args, c, s) } else { Seq::empty() };
    let g2 = grid2_write::<PROG>(c, s, prog);
    let bytes = spec_write_chapters_head::<SEL, PROG>(args, c, t, s, sel, prog) + rest;
    assert(bytes =~= first + (g1 + (h2 + (g2 + rest))));
    if every {
        lemma_counts2_roundtrip(args, c, s, g1 + (h2 + (g2 + rest)));
    } else {
        lemma_counts3_roundtrip(args, c, t, s, g1 + (h2 + (g2 + rest)));
    }
    assert(bytes.skip(first.len() as int) =~= g1 + (h2 + (g2 + rest)));
    lemma_grid2_rt::<SEL>(sel, c, s, h2 + (g2 + rest));
    assert(bytes.skip((first.len() + g1.len()) as int) =~= h2 + (g2 + rest));
    if every {
        lemma_counts2_roundtrip(args, c, s, g2 + rest);
    } else {
        assert(h2 + (g2 + rest) =~= g2 + rest);
    }
    assert(bytes.skip((first.len() + g1.len() + h2.len()) as int) =~= g2 + rest);
    lemma_grid2_rt::<PROG>(prog, c, s, rest);
}

proof fn lemma_chapters_tail_roundtrip<STAG: StageRecord, UNLCK: Codec>(
    args: GenericChapterArgs,
    c: usize,
    t: usize,
    s: usize,
    stg: Seq<STAG::Model>,
    unl: Seq<Seq<UNLCK>>,
    rest: Seq<u8>,
)
    requires
        always_writable::<UNLCK>(),
        stg.len() == c,
        forall|i: int| 0 <= i < stg.len() ==> STAG::shaped(#[trigger] stg[i], t, s),
        is_grid2(unl, c as nat, s as nat),
        length_type_fits(args.total_chapters_type, c as nat),
        length_type_fits(args.total_stages_type, t as nat),
        length_type_fits(args.total_stars_type, s as nat),
    ensures
        spec_read_chapters_tail::<STAG, UNLCK>(
            args,
            c,
            if args.read_length_every_time { 0usize } else { t },
            s,
            spec_write_chapters_tail::<STAG, UNLCK>(args, c, t, s, stg, unl) + rest,
        ) == Some(((stg, unl), spec_write_chapters_tail::<STAG, UNLCK>(args, c, t, s, stg, unl).len() as int)),
{
    reveal(spec_read_chapters_tail);
    let every = args.read_length_every_time;
    let h3 = if every { spec_write_counts3(args, c, t, s) } else { Seq::empty() };
    let g1 = spec_write_stage_list::<STAG>(stg, c, t, s);
    let h2 = if every { spec_write_counts2(args, c, s) } else { Seq::empty() };
    let g2 = grid2_write::<UNLCK>(c, s, unl);
    let bytes = spec_write_chapters_tail::<STAG, UNLCK>(args, c, t, s, stg, unl) + rest;
    assert(bytes =~= h3 + (g1 + (h2 + (g2 + rest))));
    if every {
        lemma_counts3_roundtrip(args, c, t, s, g1 + (h2 + (g2 + rest)));
    } else {
        assert(h3 + (g1 + (h2 + (g2 + rest))) =~= g1 + (h2 + (g2 + rest)));
    }
    assert(bytes.skip(h3.len() as int) =~= g1 + (h2 + (g2 + rest)));
    lemma_stage_list_roundtrip::<STAG>(stg, c, t, s, h2 + (g2 + rest));
    assert(bytes.skip((h3.len() + g1.len()) as int) =~= h2 + (g2 + rest));
    if every {
        lemma_counts2_roundtrip(args, c, s, g2 + rest);
    } else {
        assert(h2 + (g2 + rest) =~= g2 + rest);
    }
    assert(bytes.skip((h3.len() + g1.len() + h2.len()) as int) =~= g2 + rest);
    lemma_grid2_rt::<UNLCK>(unl, c, s, rest);
}

/// The shape chapters keep: selection, clear progress and unlock state are
/// chapters by stars, every chapter has records of as many stages as the
/// first, and the counts fit their kinds.
pub open spec fn chapters_shaped<SEL: Writable, PROG: Writable, STAG: StageRecord, UNLCK: Writable>(
    args: GenericChapterArgs,
    v: ChaptersView<SEL, PROG, STAG::Model, UNLCK>,
) -> bool {
    let (c, t, s) = chapters_dims::<SEL, PROG, STAG, UNLCK>(v);
    &&& always_writable::<SEL>()
    &&& always_writable::<PROG>()
    &&& always_writable::<UNLCK>()
    &&& length_type_fits(args.total_chapters_type, v.0.len())
    &&& length_type_fits(args.total_stages_type, chapters_total_stages::<STAG>(v.2))
    &&& length_type_fits(args.total_stars_type, first_len(v.0))
    &&& is_grid2(v.0, c as nat, s as nat)
    &&& is_grid2(v.1, c as nat, s as nat)
    &&& is_grid2(v.3, c as nat, s as nat)
    &&& v.2.len() == c
    &&& forall|i: int| 0 <= i < v.2.len() ==> STAG::shaped(#[trigger] v.2[i], t, s)
}

/// Chapters read back as what was written, for chapters of the shape the
/// layout keeps.
pub proof fn lemma_chapters_roundtrip<SEL: Codec, PROG: Codec, STAG: StageRecord, UNLCK: Codec>(
    args: GenericChapterArgs,
    v: ChaptersView<SEL, PROG, STAG::Model, UNLCK>,
    rest: Seq<u8>,
)
    requires
        chapters_shaped::<SEL, PROG, STAG, UNLCK>(args, v),
    ensures
        spec_read_chapters::<SEL, PROG, STAG, UNLCK>(
            args,
            spec_write_chapters::<SEL, PROG, STAG, UNLCK>(args, v) + rest,
        ) == Some((v, spec_write_chapters::<SEL, PROG, STAG, UNLCK>(args, v).len() as int)),
{
    let (c, t, s) = chapters_dims::<SEL, PROG, STAG, UNLCK>(v);
    let head = spec_write_chapters_head::<SEL, PROG>(args, c, t, s, v.0, v.1);
    let tail = spec_write_chapters_tail::<STAG, UNLCK>(args, c, t, s, v.2, v.3);
    let bytes = spec_write_chapters::<SEL, PROG, STAG, UNLCK>(args, v) + rest;
    assert(bytes =~= head + (tail + rest));
    lemma_chapters_head_roundtrip::<SEL, PROG>(args, c, t, s, v.0, v.1, tail + rest);
    assert(bytes.skip(head.len() as int) =~= tail + rest);
    lemma_chapters_tail_roundtrip::<STAG, UNLCK>(args, c, t, s, v.2, v.3, rest);
}

} // verus!
