//! Event stage progress: which stages are selected, cleared and unlocked, and
//! how often each was cleared, per map type and subchapter. Versions before
//! 8.1 store it as 32-bit numbers whose counts the version fixes or the data
//! holds; later versions store bytes and shorts behind one set of counts.

use vstd::prelude::*;
use crate::stream::{Codec, Readable, Reader, StreamError, StreamErrorKind, StreamResult, Writable, Writer};
use crate::stream::lists::{
    always_writable, is_grid3, is_grid4, item_reader, item_writer, lemma_grid3_roundtrip,
    lemma_grid4_roundtrip, lemma_items_roundtrip, lemma_read_list_bounds, lemma_item_reader_bounded,
    lemma_vec3_reader_bounded, lemma_vec4_reader_bounded, read_items, read_list, read_result_view,
    read_vec3, read_vec4, spec_read_vec3, spec_read_vec4, spec_write_vec3, spec_write_vec4,
    vec2_view, vec3_view, vec4_view, vec3_reader_at, vec4_reader_at, vec_view, write_items,
    write_list, write_vec3, write_vec4, VecArgs, VecArgsLength,
};
use crate::save::GVCC;

verus! {

/* Converting numbers one by one */

/// A number type that converts to `B` as Rust's `as` does.
pub trait CastTo<B>: Copy {
    spec fn spec_cast(self) -> B;

    fn cast_to(self) -> (b: B)
        ensures
            b == self.spec_cast(),
    ;
}

impl CastTo<i8> for i32 {
    open spec fn spec_cast(self) -> i8 {
        self as i8
    }

    fn cast_to(self) -> (b: i8) {
        self as i8
    }
}

impl CastTo<i16> for i32 {
    open spec fn spec_cast(self) -> i16 {
        self as i16
    }

    fn cast_to(self) -> (b: i16) {
        self as i16
    }
}

impl CastTo<i32> for i8 {
    open spec fn spec_cast(self) -> i32 {
        self as i32
    }

    fn cast_to(self) -> (b: i32) {
        self as i32
    }
}

impl CastTo<i32> for i16 {
    open spec fn spec_cast(self) -> i32 {
        self as i32
    }

    fn cast_to(self) -> (b: i32) {
        self as i32
    }
}

pub open spec fn cast_seq<A: CastTo<B>, B>(s: Seq<A>) -> Seq<B> {
    s.map_values(|x: A| x.spec_cast())
}

pub open spec fn cast_seq2<A: CastTo<B>, B>(s: Seq<Seq<A>>) -> Seq<Seq<B>> {
    s.map_values(|r: Seq<A>| cast_seq::<A, B>(r))
}

pub open spec fn cast_seq3<A: CastTo<B>, B>(s: Seq<Seq<Seq<A>>>) -> Seq<Seq<Seq<B>>> {
    s.map_values(|r: Seq<Seq<A>>| cast_seq2::<A, B>(r))
}

pub open spec fn cast_seq4<A: CastTo<B>, B>(s: Seq<Seq<Seq<Seq<A>>>>) -> Seq<Seq<Seq<Seq<B>>>> {
    s.map_values(|r: Seq<Seq<Seq<A>>>| cast_seq3::<A, B>(r))
}

pub fn cast_row<A: CastTo<B>, B>(v: &Vec<A>) -> (out: Vec<B>)
    ensures
        out@ == cast_seq::<A, B>(v@),
{
    let mut out: Vec<B> = Vec::new();
    let mut i: usize = 0;
    while i < v.len()
        invariant
            i <= v.len(),
            out@.len() == i,
            forall|j: int| 0 <= j < i ==> out@[j] == (#[trigger] v@[j]).spec_cast(),
        decreases v.len() - i,
    {
        out.push(v[i].cast_to());
        i = i + 1;
    }
    assert(out@ =~= cast_seq::<A, B>(v@));
    out
}

pub fn cast_grid2<A: CastTo<B>, B>(v: &Vec<Vec<A>>) -> (out: Vec<Vec<B>>)
    ensures
        vec2_view()(out) == cast_seq2::<A, B>(vec2_view()(*v)),
{
    let mut out: Vec<Vec<B>> = Vec::new();
    let mut i: usize = 0;
    while i < v.len()
        invariant
            i <= v.len(),
            out@.len() == i,
            forall|j: int| 0 <= j < i ==> out@[j]@ == cast_seq::<A, B>((#[trigger] v@[j])@),
        decreases v.len() - i,
    {
        out.push(cast_row(&v[i]));
        i = i + 1;
    }
    assert(vec2_view()(out) =~= cast_seq2::<A, B>(vec2_view()(*v)));
    out
}

pub fn cast_grid3<A: CastTo<B>, B>(v: &Vec<Vec<Vec<A>>>) -> (out: Vec<Vec<Vec<B>>>)
    ensures
        vec3_view()(out) == cast_seq3::<A, B>(vec3_view()(*v)),
{
    let mut out: Vec<Vec<Vec<B>>> = Vec::new();
    let mut i: usize = 0;
    while i < v.len()
        invariant
            i <= v.len(),
            out@.len() == i,
            forall|j: int|
                0 <= j < i ==> vec2_view()(out@[j]) == cast_seq2::<A, B>(vec2_view()(#[trigger] v@[j])),
        decreases v.len() - i,
    {
        out.push(cast_grid2(&v[i]));
        i = i + 1;
    }
    assert(vec3_view()(out) =~= cast_seq3::<A, B>(vec3_view()(*v)));
    out
}

pub fn cast_grid4<A: CastTo<B>, B>(v: &Vec<Vec<Vec<Vec<A>>>>) -> (out: Vec<Vec<Vec<Vec<B>>>>)
    ensures
        vec4_view()(out) == cast_seq4::<A, B>(vec4_view()(*v)),
{
    let mut out: Vec<Vec<Vec<Vec<B>>>> = Vec::new();
    let mut i: usize = 0;
    while i < v.len()
        invariant
            i <= v.len(),
            out@.len() == i,
            forall|j: int|
                0 <= j < i ==> vec3_view()(out@[j]) == cast_seq3::<A, B>(vec3_view()(#[trigger] v@[j])),
        decreases v.len() - i,
    {
        out.push(cast_grid3(&v[i]));
        i = i + 1;
    }
    assert(vec4_view()(out) =~= cast_seq4::<A, B>(vec4_view()(*v)));
    out
}

/* Blocks: counts, then a grid of that shape */

/// The counts in front of a block: read as 32-bit numbers where the layout
/// stores them (as many as `given` has), else `given` itself.
pub open spec fn spec_read_counts(stored: bool, given: Seq<i32>, bytes: Seq<u8>) -> Option<(Seq<i32>, int)> {
    if stored {
        read_list(item_reader::<i32>(), bytes, given.len())
    } else {
        Some((given, 0))
    }
}

pub open spec fn spec_write_counts(stored: bool, counts: Seq<i32>) -> Seq<u8> {
    if stored {
        write_list(item_writer::<i32>(), counts)
    } else {
        Seq::empty()
    }
}

/// A count of the data as a fixed length; a negative one is refused.
pub open spec fn all_counts_valid(d: Seq<i32>) -> bool {
    forall|i: int| 0 <= i < d.len() ==> #[trigger] d[i] >= 0
}

pub open spec fn fixed(x: i32) -> VecArgsLength {
    VecArgsLength::Fixed(x as usize)
}

/// A block of three counts and the grid they describe.
#[verifier::opaque]
pub open spec fn spec_read_block3<T: Readable>(stored: bool, given: Seq<i32>, bytes: Seq<u8>) -> Option<
    ((Seq<i32>, Seq<Seq<Seq<T>>>), int),
> {
    match spec_read_counts(stored, given, bytes) {
        Some((d, k)) => if all_counts_valid(d) {
            match spec_read_vec3::<T>(fixed(d[0]), fixed(d[1]), fixed(d[2]), bytes.skip(k)) {
                Some((g, k2)) => Some(((d, g), k + k2)),
                None => None,
            }
        } else {
            None
        },
        None => None,
    }
}

/// A block of four counts and the grid they describe.
#[verifier::opaque]
pub open spec fn spec_read_block4<T: Readable>(stored: bool, given: Seq<i32>, bytes: Seq<u8>) -> Option<
    ((Seq<i32>, Seq<Seq<Seq<Seq<T>>>>), int),
> {
    match spec_read_counts(stored, given, bytes) {
        Some((d, k)) => if all_counts_valid(d) {
            match spec_read_vec4::<T>(fixed(d[0]), fixed(d[1]), fixed(d[2]), fixed(d[3]), bytes.skip(k)) {
                Some((g, k2)) => Some(((d, g), k + k2)),
                None => None,
            }
        } else {
            None
        },
        None => None,
    }
}

pub open spec fn block3_view<T>() -> spec_fn((Vec<i32>, Vec<Vec<Vec<T>>>)) -> (Seq<i32>, Seq<Seq<Seq<T>>>) {
    |p: (Vec<i32>, Vec<Vec<Vec<T>>>)| (p.0@, vec3_view()(p.1))
}

pub open spec fn block4_view<T>() -> spec_fn((Vec<i32>, Vec<Vec<Vec<Vec<T>>>>)) -> (Seq<i32>, Seq<Seq<Seq<Seq<T>>>>) {
    |p: (Vec<i32>, Vec<Vec<Vec<Vec<T>>>>)| (p.0@, vec4_view()(p.1))
}

fn read_counts(r: &mut Reader, stored: bool, given: &Vec<i32>) -> (res: StreamResult<Vec<i32>>)
    ensures
        read_result_view(*old(r), *final(r), res, spec_read_counts(stored, given@, old(r).rest()), vec_view::<i32>()),
        res matches Ok(d) ==> d@.len() == given@.len(),
        res is Ok ==> old(r).position() <= final(r).position(),
{
    let _ = r.remaining();
    proof {
        lemma_item_reader_bounded::<i32>();
        lemma_read_list_bounds(item_reader::<i32>(), old(r).rest(), given@.len());
    }
    if stored {
        read_items::<i32>(r, given.len())
    } else {
        let mut d: Vec<i32> = Vec::new();
        let mut i: usize = 0;
        while i < given.len()
            invariant
                i <= given.len(),
                d@ == given@.take(i as int),
            decreases given.len() - i,
        {
            d.push(given[i]);
            i = i + 1;
            assert(d@ =~= given@.take(i as int));
        }
        assert(d@ =~= given@);
        Ok(d)
    }
}

fn check_counts(r: &Reader, d: &Vec<i32>) -> (res: StreamResult<()>)
    ensures
        res is Ok <==> all_counts_valid(d@),
{
    let mut i: usize = 0;
    while i < d.len()
        invariant
            i <= d.len(),
            forall|j: int| 0 <= j < i ==> #[trigger] d@[j] >= 0,
        decreases d.len() - i,
    {
        if d[i] < 0 {
            return Err(StreamError::new(StreamErrorKind::NegativeLength, r.stream_position() as u64));
        }
        i = i + 1;
    }
    Ok(())
}

/// Reads a block of three counts and the grid they describe.
pub fn read_block3<T: Readable>(r: &mut Reader, stored: bool, given: &Vec<i32>) -> (res: StreamResult<
    (Vec<i32>, Vec<Vec<Vec<T>>>),
>)
    requires
        given@.len() == 3,
    ensures
        read_result_view(*old(r), *final(r), res, spec_read_block3::<T>(stored, given@, old(r).rest()), block3_view::<T>()),
        res matches Ok(p) ==> p.0@.len() == 3,
        res is Ok ==> old(r).position() <= final(r).position(),
{
    let ghost start = *old(r);
    let ghost bytes = old(r).rest();
    proof {
        reveal(spec_read_block3);
        reveal(spec_read_block4);
    }
    let _ = r.remaining();
    let d = read_counts(r, stored, given)?;
    proof {
        Reader::lemma_rest_skip(start, *r);
        reveal(spec_read_block3);
        reveal(spec_read_block4);
    }
    check_counts(r, &d)?;
    let ghost mid = *r;
    let args = VecArgs {
        length: VecArgsLength::Fixed(d[0] as usize),
        item: VecArgs {
            length: VecArgsLength::Fixed(d[1] as usize),
            item: VecArgs::new_empty_fixed(d[2] as usize),
        },
    };
    let g = read_vec3::<T>(r, args)?;
    proof {
        reveal(spec_read_block3);
        lemma_vec3_reader_bounded::<T>(fixed(d@[0]), fixed(d@[1]), fixed(d@[2]));
        assert(vec3_reader_at::<T>(fixed(d@[0]), fixed(d@[1]), fixed(d@[2]))(mid.rest())
            == spec_read_vec3::<T>(fixed(d@[0]), fixed(d@[1]), fixed(d@[2]), mid.rest()));
    }
    Ok((d, g))
}

/// Reads a block of four counts and the grid they describe.
pub fn read_block4<T: Readable>(r: &mut Reader, stored: bool, given: &Vec<i32>) -> (res: StreamResult<
    (Vec<i32>, Vec<Vec<Vec<Vec<T>>>>),
>)
    requires
        given@.len() == 4,
    ensures
        read_result_view(*old(r), *final(r), res, spec_read_block4::<T>(stored, given@, old(r).rest()), block4_view::<T>()),
        res matches Ok(p) ==> p.0@.len() == 4,
        res is Ok ==> old(r).position() <= final(r).position(),
{
    let ghost start = *old(r);
    let ghost bytes = old(r).rest();
    proof {
        reveal(spec_read_block3);
        reveal(spec_read_block4);
    }
    let _ = r.remaining();
    let d = read_counts(r, stored, given)?;
    proof {
        Reader::lemma_rest_skip(start, *r);
        reveal(spec_read_block3);
        reveal(spec_read_block4);
    }
    check_counts(r, &d)?;
    let ghost mid = *r;
    let args = VecArgs {
        length: VecArgsLength::Fixed(d[0] as usize),
        item: VecArgs {
            length: VecArgsLength::Fixed(d[1] as usize),
            item: VecArgs {
                length: VecArgsLength::Fixed(d[2] as usize),
                item: VecArgs::new_empty_fixed(d[3] as usize),
            },
        },
    };
    let g = read_vec4::<T>(r, args)?;
    proof {
        reveal(spec_read_block4);
        lemma_vec4_reader_bounded::<T>(fixed(d@[0]), fixed(d@[1]), fixed(d@[2]), fixed(d@[3]));
        assert(vec4_reader_at::<T>(fixed(d@[0]), fixed(d@[1]), fixed(d@[2]), fixed(d@[3]))(mid.rest())
            == spec_read_vec4::<T>(fixed(d@[0]), fixed(d@[1]), fixed(d@[2]), fixed(d@[3]), mid.rest()));
    }
    Ok((d, g))
}

/// The counts written in front of a block, as 32-bit numbers (cut to them).
pub open spec fn counts_of(d: Seq<usize>) -> Seq<i32> {
    d.map_values(|x: usize| x as i32)
}

/// A block as written: its counts where the layout stores them, then the
/// grid cut or padded to them.
#[verifier::opaque]
pub open spec fn spec_write_block3<T: Writable>(stored: bool, d: Seq<usize>, s: Seq<Seq<Seq<T>>>) -> Seq<u8> {
    spec_write_counts(stored, counts_of(d)) + spec_write_vec3::<T>(
        VecArgsLength::Fixed(d[0]),
        VecArgsLength::Fixed(d[1]),
        VecArgsLength::Fixed(d[2]),
        s,
    )
}

#[verifier::opaque]
pub open spec fn spec_write_block4<T: Writable>(stored: bool, d: Seq<usize>, s: Seq<Seq<Seq<Seq<T>>>>) -> Seq<u8> {
    spec_write_counts(stored, counts_of(d)) + spec_write_vec4::<T>(
        VecArgsLength::Fixed(d[0]),
        VecArgsLength::Fixed(d[1]),
        VecArgsLength::Fixed(d[2]),
        VecArgsLength::Fixed(d[3]),
        s,
    )
}

fn write_counts(w: &mut Writer, stored: bool, d: &Vec<usize>)
    ensures
        final(w).bytes() == old(w).bytes() + spec_write_counts(stored, counts_of(d@)),
{
    if stored {
        let mut c: Vec<i32> = Vec::new();
        let mut i: usize = 0;
        while i < d.len()
            invariant
                i <= d.len(),
                c@ == counts_of(d@).take(i as int),
            decreases d.len() - i,
        {
            c.push(d[i] as i32);
            i = i + 1;
            assert(c@ =~= counts_of(d@).take(i as int));
        }
        assert(c@ =~= counts_of(d@));
        write_items(w, c.as_slice());
    } else {
        assert(old(w).bytes() + Seq::<u8>::empty() =~= old(w).bytes());
    }
}

/// Writes a block: its counts where the layout stores them, then the grid
/// cut or padded to them.
pub fn write_block3<T: Writable>(w: &mut Writer, stored: bool, d: &Vec<usize>, s: &Vec<Vec<Vec<T>>>)
    requires
        always_writable::<T>(),
        d@.len() == 3,
    ensures
        final(w).bytes() == old(w).bytes() + spec_write_block3::<T>(stored, d@, vec3_view()(*s)),
{
    write_counts(w, stored, d);
    let args = VecArgs {
        length: VecArgsLength::Fixed(d[0]),
        item: VecArgs { length: VecArgsLength::Fixed(d[1]), item: VecArgs::new_empty_fixed(d[2]) },
    };
    write_vec3::<T>(w, s, args);
    reveal(spec_write_block3);
    assert(w.bytes() =~= old(w).bytes() + spec_write_block3::<T>(stored, d@, vec3_view()(*s)));
}

pub fn write_block4<T: Writable>(w: &mut Writer, stored: bool, d: &Vec<usize>, s: &Vec<Vec<Vec<Vec<T>>>>)
    requires
        always_writable::<T>(),
        d@.len() == 4,
    ensures
        final(w).bytes() == old(w).bytes() + spec_write_block4::<T>(stored, d@, vec4_view()(*s)),
{
    write_counts(w, stored, d);
    let args = VecArgs {
        length: VecArgsLength::Fixed(d[0]),
        item: VecArgs {
            length: VecArgsLength::Fixed(d[1]),
            item: VecArgs { length: VecArgsLength::Fixed(d[2]), item: VecArgs::new_empty_fixed(d[3]) },
        },
    };
    write_vec4::<T>(w, s, args);
    reveal(spec_write_block4);
    assert(w.bytes() =~= old(w).bytes() + spec_write_block4::<T>(stored, d@, vec4_view()(*s)));
}

/// The counts a block reads back: those written where the layout stores
/// them, else the given ones.
pub open spec fn block_counts(stored: bool, given: Seq<i32>, d: Seq<usize>) -> Seq<i32> {
    if stored {
        counts_of(d)
    } else {
        given
    }
}

/// A block reads back from what was written for it: the counts that were
/// written (or given, where the layout fixes them), and the grid itself,
/// where the grid has the shape of the counts.
pub proof fn lemma_block3_roundtrip<T: Codec>(
    stored: bool,
    given: Seq<i32>,
    d: Seq<usize>,
    s: Seq<Seq<Seq<T>>>,
    rest: Seq<u8>,
)
    requires
        always_writable::<T>(),
        d.len() == 3,
        given.len() == 3,
        forall|i: int|
            0 <= i < 3 ==> 0 <= #[trigger] block_counts(stored, given, d)[i] && block_counts(
                stored,
                given,
                d,
            )[i] as usize == d[i],
        is_grid3(s, d[0] as nat, d[1] as nat, d[2] as nat),
    ensures
        spec_read_block3::<T>(stored, given, spec_write_block3::<T>(stored, d, s) + rest) == Some(
            (
                (block_counts(stored, given, d), s),
                spec_write_block3::<T>(stored, d, s).len() as int,
            ),
        ),
{
    reveal(spec_read_block3);
    reveal(spec_write_block3);
    let c = block_counts(stored, given, d);
    let cb = spec_write_counts(stored, counts_of(d));
    let gb = spec_write_vec3::<T>(
        VecArgsLength::Fixed(d[0]),
        VecArgsLength::Fixed(d[1]),
        VecArgsLength::Fixed(d[2]),
        s,
    );
    let bytes = spec_write_block3::<T>(stored, d, s) + rest;
    assert(bytes =~= cb + (gb + rest));
    if stored {
        lemma_items_roundtrip::<i32>(counts_of(d), gb + rest);
    } else {
        assert(cb =~= Seq::<u8>::empty());
    }
    assert(bytes.skip(cb.len() as int) =~= gb + rest);
    assert(0 <= c[0] && c[0] as usize == d[0]);
    assert(0 <= c[1] && c[1] as usize == d[1]);
    assert(0 <= c[2] && c[2] as usize == d[2]);
    assert(all_counts_valid(c));
    lemma_grid3_roundtrip::<T>(s, d[0], d[1], d[2], rest);
}

pub proof fn lemma_block4_roundtrip<T: Codec>(
    stored: bool,
    given: Seq<i32>,
    d: Seq<usize>,
    s: Seq<Seq<Seq<Seq<T>>>>,
    rest: Seq<u8>,
)
    requires
        always_writable::<T>(),
        d.len() == 4,
        given.len() == 4,
        forall|i: int|
            0 <= i < 4 ==> 0 <= #[trigger] block_counts(stored, given, d)[i] && block_counts(
                stored,
                given,
                d,
            )[i] as usize == d[i],
        is_grid4(s, d[0] as nat, d[1] as nat, d[2] as nat, d[3] as nat),
    ensures
        spec_read_block4::<T>(stored, given, spec_write_block4::<T>(stored, d, s) + rest) == Some(
            (
                (block_counts(stored, given, d), s),
                spec_write_block4::<T>(stored, d, s).len() as int,
            ),
        ),
{
    reveal(spec_read_block4);
    reveal(spec_write_block4);
    let c = block_counts(stored, given, d);
    let cb = spec_write_counts(stored, counts_of(d));
    let gb = spec_write_vec4::<T>(
        VecArgsLength::Fixed(d[0]),
        VecArgsLength::Fixed(d[1]),
        VecArgsLength::Fixed(d[2]),
        VecArgsLength::Fixed(d[3]),
        s,
    );
    let bytes = spec_write_block4::<T>(stored, d, s) + rest;
    assert(bytes =~= cb + (gb + rest));
    if stored {
        lemma_items_roundtrip::<i32>(counts_of(d), gb + rest);
    } else {
        assert(cb =~= Seq::<u8>::empty());
    }
    assert(bytes.skip(cb.len() as int) =~= gb + rest);
    assert(0 <= c[0] && c[0] as usize == d[0]);
    assert(0 <= c[1] && c[1] as usize == d[1]);
    assert(0 <= c[2] && c[2] as usize == d[2]);
    assert(0 <= c[3] && c[3] as usize == d[3]);
    assert(all_counts_valid(c));
    lemma_grid4_roundtrip::<T>(s, d[0], d[1], d[2], d[3], rest);
}

/* Event chapters */

/// One grid of event data: rows of values.
#[derive(Debug, Clone)]
pub struct EventChapter<T> {
    pub data: Vec<Vec<T>>,
}

/// Event stage progress. `T` holds selection, clear progress and unlock
/// state; `T2` holds clear amounts.
#[derive(Debug, Clone)]
pub struct EventChaptersT<T, T2> {
    pub selected_stages: Vec<Vec<Vec<T>>>,
    pub clear_progress: Vec<Vec<Vec<T>>>,
    pub clear_amounts: Vec<Vec<Vec<Vec<T2>>>>,
    pub unlock_state: Vec<Vec<Vec<T>>>,
}

/// Selection, clear progress, clear amounts and unlock state, as sequences.
pub type EventChaptersView<T, T2> = (
    Seq<Seq<Seq<T>>>,
    Seq<Seq<Seq<T>>>,
    Seq<Seq<Seq<Seq<T2>>>>,
    Seq<Seq<Seq<T>>>,
);

impl<T, T2> View for EventChaptersT<T, T2> {
    type V = EventChaptersView<T, T2>;

    open spec fn view(&self) -> EventChaptersView<T, T2> {
        (
            vec3_view()(self.selected_stages),
            vec3_view()(self.clear_progress),
            vec4_view()(self.clear_amounts),
            vec3_view()(self.unlock_state),
        )
    }
}

pub open spec fn event_view<T, T2>() -> spec_fn(EventChaptersT<T, T2>) -> EventChaptersView<T, T2> {
    |e: EventChaptersT<T, T2>| e@
}

/// The length of the first row, or 0 where there is none.
pub open spec fn first_len<A>(s: Seq<Seq<A>>) -> nat {
    if s.len() > 0 {
        s[0].len()
    } else {
        0
    }
}

/// The length of the first row of the first grid, or 0 where there is none.
pub open spec fn first_first_len<A>(s: Seq<Seq<Seq<A>>>) -> nat {
    if s.len() > 0 {
        first_len(s[0])
    } else {
        0
    }
}

impl<T, T2> Default for EventChaptersT<T, T2> {
    fn default() -> (d: Self)
        ensures
            d@.0.len() == 0,
            d@.1.len() == 0,
            d@.2.len() == 0,
            d@.3.len() == 0,
    {
        EventChaptersT {
            selected_stages: Vec::new(),
            clear_progress: Vec::new(),
            clear_amounts: Vec::new(),
            unlock_state: Vec::new(),
        }
    }
}

impl<T1, T2> EventChaptersT<T1, T2> {
    pub fn get_total_map_types(&self) -> (n: usize)
        ensures
            n == self@.0.len(),
    {
        self.selected_stages.len()
    }

    pub fn get_total_subchapters(&self) -> (n: usize)
        ensures
            n == first_len(self@.0),
    {
        if self.selected_stages.len() > 0 {
            self.selected_stages[0].len()
        } else {
            0
        }
    }

    pub fn get_stars_per_subchapter(&self) -> (n: usize)
        ensures
            n == first_first_len(self@.0),
    {
        if self.selected_stages.len() > 0 && self.selected_stages[0].len() > 0 {
            self.selected_stages[0][0].len()
        } else {
            0
        }
    }

    pub fn get_stages_per_subchapter(&self) -> (n: usize)
        ensures
            n == first_first_len(self@.2),
    {
        if self.clear_amounts.len() > 0 && self.clear_amounts[0].len() > 0 {
            self.clear_amounts[0][0].len()
        } else {
            0
        }
    }
}

/* The 32-bit layout */

/// The counts that versions up to 34 fix: map types, subchapters, stars.
pub open spec fn event_int_first_counts(gv: u32) -> Seq<i32> {
    if gv <= 5 {
        seq![3i32, 50, 1]
    } else if gv == 6 {
        seq![3i32, 150, 1]
    } else if gv <= 32 {
        seq![3i32, 150, 3]
    } else {
        seq![4i32, 150, 3]
    }
}

/// Whether the 32-bit layout stores its counts: from version 35 on.
pub open spec fn event_int_stored(gv: u32) -> bool {
    gv > 34
}

/// What reading the 32-bit layout yields. Where the version fixes the counts,
/// clear amounts have 12 stages; where the data holds them, each block reads
/// its own.
pub open spec fn spec_read_event_chapters_int(gv: u32, bytes: Seq<u8>) -> Option<(EventChaptersView<i32, i32>, int)> {
    let stored = event_int_stored(gv);
    match spec_read_block3::<i32>(stored, event_int_first_counts(gv), bytes) {
        Some(((d1, sel), k1)) => match spec_read_block3::<i32>(stored, d1, bytes.skip(k1)) {
            Some(((d2, prog), k2)) => match spec_read_block4::<i32>(
                stored,
                seq![d2[0], d2[1], d2[2], 12i32],
                bytes.skip(k1 + k2),
            ) {
                Some(((d3, amt), k3)) => match spec_read_block3::<i32>(
                    stored,
                    seq![d3[0], d3[1], d3[2]],
                    bytes.skip(k1 + k2 + k3),
                ) {
                    Some(((_d4, unl), k4)) => Some(((sel, prog, amt, unl), k1 + k2 + k3 + k4)),
                    None => None,
                },
                None => None,
            },
            None => None,
        },
        None => None,
    }
}

/// The counts the 32-bit layout is written with: map types, subchapters,
/// stars and stages; fixed by the version, or taken from the data (the
/// stages from the length of the first row of clear amounts).
pub open spec fn event_int_write_dims(gv: u32, v: EventChaptersView<i32, i32>) -> Seq<usize> {
    if event_int_stored(gv) {
        seq![
            v.0.len() as usize,
            first_len(v.0) as usize,
            first_first_len(v.0) as usize,
            first_first_len(v.2) as usize,
        ]
    } else {
        let t = event_int_first_counts(gv);
        seq![t[0] as usize, t[1] as usize, t[2] as usize, 12usize]
    }
}

pub open spec fn spec_write_event_chapters_int(gv: u32, v: EventChaptersView<i32, i32>) -> Seq<u8> {
    let stored = event_int_stored(gv);
    let d = event_int_write_dims(gv, v);
    let d3 = seq![d[0], d[1], d[2]];
    spec_write_block3::<i32>(stored, d3, v.0) + spec_write_block3::<i32>(stored, d3, v.1)
        + spec_write_block4::<i32>(stored, d, v.2) + spec_write_block3::<i32>(stored, d3, v.3)
}

impl EventChaptersT<i32, i32> {
    pub fn read(r: &mut Reader, args: GVCC) -> (res: StreamResult<Self>)
        ensures
            read_result_view(
                *old(r),
                *final(r),
                res,
                spec_read_event_chapters_int(args.gv.0, old(r).rest()),
                event_view::<i32, i32>(),
            ),
    {
        let ghost start = *old(r);
        let ghost bytes = old(r).rest();
        let _ = r.remaining();
        let gv = args.gv.0;
        let stored = gv > 34;
        let first: Vec<i32> = if gv <= 5 {
            vec![3, 50, 1]
        } else if gv == 6 {
            vec![3, 150, 1]
        } else if gv <= 32 {
            vec![3, 150, 3]
        } else {
            vec![4, 150, 3]
        };
        assert(first@ =~= event_int_first_counts(gv));
        let (d1, selected_stages) = read_block3::<i32>(r, stored, &first)?;
        proof {
            Reader::lemma_rest_skip(start, *r);
        }
        let (d2, clear_progress) = read_block3::<i32>(r, stored, &d1)?;
        proof {
            Reader::lemma_rest_skip(start, *r);
        }
        let g3: Vec<i32> = vec![d2[0], d2[1], d2[2], 12];
        assert(g3@ =~= seq![d2@[0], d2@[1], d2@[2], 12i32]);
        let (d3, clear_amounts) = read_block4::<i32>(r, stored, &g3)?;
        proof {
            Reader::lemma_rest_skip(start, *r);
        }
        let g4: Vec<i32> = vec![d3[0], d3[1], d3[2]];
        assert(g4@ =~= seq![d3@[0], d3@[1], d3@[2]]);
        let (_d4, unlock_state) = read_block3::<i32>(r, stored, &g4)?;
        Ok(EventChaptersT { selected_stages, clear_progress, clear_amounts, unlock_state })
    }

    pub fn write(&self, w: &mut Writer, args: GVCC)
        ensures
            final(w).bytes() == old(w).bytes() + spec_write_event_chapters_int(args.gv.0, self@),
    {
        let gv = args.gv.0;
        let stored = gv > 34;
        let d: Vec<usize> = if gv <= 5 {
            vec![3, 50, 1, 12]
        } else if gv == 6 {
            vec![3, 150, 1, 12]
        } else if gv <= 32 {
            vec![3, 150, 3, 12]
        } else if gv <= 34 {
            vec![4, 150, 3, 12]
        } else {
            vec![
                self.get_total_map_types(),
                self.get_total_subchapters(),
                self.get_stars_per_subchapter(),
                self.get_stages_per_subchapter(),
            ]
        };
        assert(d@ =~= event_int_write_dims(gv, self@));
        let d3: Vec<usize> = vec![d[0], d[1], d[2]];
        assert(d3@ =~= seq![d@[0], d@[1], d@[2]]);
        write_block3::<i32>(w, stored, &d3, &self.selected_stages);
        write_block3::<i32>(w, stored, &d3, &self.clear_progress);
        write_block4::<i32>(w, stored, &d, &self.clear_amounts);
        write_block3::<i32>(w, stored, &d3, &self.unlock_state);
        assert(w.bytes() =~= old(w).bytes() + spec_write_event_chapters_int(gv, self@));
    }
}

/// The shape the 32-bit layout keeps: each grid has exactly the counts it is
/// written with, and where the data holds the counts they fit 32 bits.
pub open spec fn event_int_shaped(gv: u32, v: EventChaptersView<i32, i32>) -> bool {
    let d = event_int_write_dims(gv, v);
    &&& is_grid3(v.0, d[0] as nat, d[1] as nat, d[2] as nat)
    &&& is_grid3(v.1, d[0] as nat, d[1] as nat, d[2] as nat)
    &&& is_grid4(v.2, d[0] as nat, d[1] as nat, d[2] as nat, d[3] as nat)
    &&& is_grid3(v.3, d[0] as nat, d[1] as nat, d[2] as nat)
    &&& event_int_stored(gv) ==> d[0] <= i32::MAX && d[1] <= i32::MAX && d[2] <= i32::MAX && d[3]
        <= i32::MAX
}

/// Event progress in the 32-bit layout reads back as what was written, for
/// progress of the shape the layout keeps.
pub proof fn lemma_event_chapters_int_roundtrip(gv: u32, v: EventChaptersView<i32, i32>, rest: Seq<u8>)
    requires
        event_int_shaped(gv, v),
    ensures
        spec_read_event_chapters_int(gv, spec_write_event_chapters_int(gv, v) + rest) == Some(
            (v, spec_write_event_chapters_int(gv, v).len() as int),
        ),
{
    let stored = event_int_stored(gv);
    let d = event_int_write_dims(gv, v);
    let d3 = seq![d[0], d[1], d[2]];
    let w1 = spec_write_block3::<i32>(stored, d3, v.0);
    let w2 = spec_write_block3::<i32>(stored, d3, v.1);
    let w3 = spec_write_block4::<i32>(stored, d, v.2);
    let w4 = spec_write_block3::<i32>(stored, d3, v.3);
    let bytes = spec_write_event_chapters_int(gv, v) + rest;
    assert(bytes =~= w1 + (w2 + (w3 + (w4 + rest))));
    let first = event_int_first_counts(gv);
    let c3 = block_counts(stored, first, d3);
    assert(0 <= c3[0] && c3[0] as usize == d3[0]);
    assert(0 <= c3[1] && c3[1] as usize == d3[1]);
    assert(0 <= c3[2] && c3[2] as usize == d3[2]);
    lemma_block3_roundtrip::<i32>(stored, first, d3, v.0, w2 + (w3 + (w4 + rest)));
    assert(bytes.skip(w1.len() as int) =~= w2 + (w3 + (w4 + rest)));
    assert(block_counts(stored, c3, d3) == c3);
    lemma_block3_roundtrip::<i32>(stored, c3, d3, v.1, w3 + (w4 + rest));
    assert(bytes.skip((w1.len() + w2.len()) as int) =~= w3 + (w4 + rest));
    let g = seq![c3[0], c3[1], c3[2], 12i32];
    let c4 = block_counts(stored, g, d);
    assert(0 <= c4[0] && c4[0] as usize == d[0]);
    assert(0 <= c4[1] && c4[1] as usize == d[1]);
    assert(0 <= c4[2] && c4[2] as usize == d[2]);
    assert(0 <= c4[3] && c4[3] as usize == d[3]);
    lemma_block4_roundtrip::<i32>(stored, g, d, v.2, w4 + rest);
    assert(bytes.skip((w1.len() + w2.len() + w3.len()) as int) =~= w4 + rest);
    let g2 = seq![c4[0], c4[1], c4[2]];
    let c5 = block_counts(stored, g2, d3);
    assert(0 <= c5[0] && c5[0] as usize == d3[0]);
    assert(0 <= c5[1] && c5[1] as usize == d3[1]);
    assert(0 <= c5[2] && c5[2] as usize == d3[2]);
    lemma_block3_roundtrip::<i32>(stored, g2, d3, v.3, rest);
}

/* The byte layout */

/// The counts in front of the byte layout: map types (byte), subchapters
/// (short), stars (byte) and stages (byte).
pub open spec fn spec_read_byte_counts(bytes: Seq<u8>) -> Option<(Seq<i32>, int)> {
    match i8::spec_read(bytes) {
        Some((a, k1)) => match i16::spec_read(bytes.skip(k1)) {
            Some((b, k2)) => match i8::spec_read(bytes.skip(k1 + k2)) {
                Some((c, k3)) => match i8::spec_read(bytes.skip(k1 + k2 + k3)) {
                    Some((d, k4)) => Some((seq![a as i32, b as i32, c as i32, d as i32], k1 + k2 + k3 + k4)),
                    None => None,
                },
                None => None,
            },
            None => None,
        },
        None => None,
    }
}

fn read_byte_counts(r: &mut Reader) -> (res: StreamResult<Vec<i32>>)
    ensures
        read_result_view(*old(r), *final(r), res, spec_read_byte_counts(old(r).rest()), vec_view::<i32>()),
        res is Ok ==> old(r).position() <= final(r).position(),
        res matches Ok(n) ==> n@.len() == 4,
{
    let ghost start = *old(r);
    let _ = r.remaining();
    let a = i8::read(r)?;
    proof {
        i8::lemma_read_bounds(start.rest());
        Reader::lemma_rest_skip(start, *r);
    }
    let ghost r1 = *r;
    let b = i16::read(r)?;
    proof {
        i16::lemma_read_bounds(r1.rest());
        Reader::lemma_rest_skip(start, *r);
    }
    let ghost r2 = *r;
    let c = i8::read(r)?;
    proof {
        i8::lemma_read_bounds(r2.rest());
        Reader::lemma_rest_skip(start, *r);
    }
    let ghost r3 = *r;
    let d = i8::read(r)?;
    proof {
        i8::lemma_read_bounds(r3.rest());
    }
    let n: Vec<i32> = vec![a as i32, b as i32, c as i32, d as i32];
    assert(n@ =~= seq![a as i32, b as i32, c as i32, d as i32]);
    Ok(n)
}

/// What reading the byte layout yields: one set of counts, then the grids;
/// clear amounts list stages before stars.
pub open spec fn spec_read_event_chapters_byte(bytes: Seq<u8>) -> Option<(EventChaptersView<i8, i16>, int)> {
    match spec_read_byte_counts(bytes) {
        Some((n, k0)) => {
            let d3 = seq![n[0], n[1], n[2]];
            let d4 = seq![n[0], n[1], n[3], n[2]];
            match spec_read_block3::<i8>(false, d3, bytes.skip(k0)) {
                Some(((_a, sel), k1)) => match spec_read_block3::<i8>(false, d3, bytes.skip(k0 + k1)) {
                    Some(((_b, prog), k2)) => match spec_read_block4::<i16>(
                        false,
                        d4,
                        bytes.skip(k0 + k1 + k2),
                    ) {
                        Some(((_c, amt), k3)) => match spec_read_block3::<i8>(
                            false,
                            d3,
                            bytes.skip(k0 + k1 + k2 + k3),
                        ) {
                            Some(((_d, unl), k4)) => Some(((sel, prog, amt, unl), k0 + k1 + k2 + k3 + k4)),
                            None => None,
                        },
                        None => None,
                    },
                    None => None,
                },
                None => None,
            }
        },
        None => None,
    }
}

/// The counts the byte layout is written with, from the shape of the data:
/// map types, subchapters, stars, and stages (the length of the first row
/// of clear amounts).
pub open spec fn event_byte_write_dims(v: EventChaptersView<i8, i16>) -> Seq<usize> {
    seq![
        v.0.len() as usize,
        first_len(v.0) as usize,
        first_first_len(v.0) as usize,
        first_first_len(v.2) as usize,
    ]
}

pub open spec fn spec_write_byte_counts(d: Seq<usize>) -> Seq<u8> {
    (d[0] as i8).spec_write() + (d[1] as i16).spec_write() + (d[2] as i8).spec_write() + (
    d[3] as i8).spec_write()
}

pub open spec fn spec_write_event_chapters_byte(v: EventChaptersView<i8, i16>) -> Seq<u8> {
    let d = event_byte_write_dims(v);
    let d3 = seq![d[0], d[1], d[2]];
    let d4 = seq![d[0], d[1], d[3], d[2]];
    spec_write_byte_counts(d) + spec_write_block3::<i8>(false, d3, v.0) + spec_write_block3::<i8>(
        false,
        d3,
        v.1,
    ) + spec_write_block4::<i16>(false, d4, v.2) + spec_write_block3::<i8>(false, d3, v.3)
}

impl EventChaptersT<i8, i16> {
    pub fn read(r: &mut Reader) -> (res: StreamResult<Self>)
        ensures
            read_result_view(
                *old(r),
                *final(r),
                res,
                spec_read_event_chapters_byte(old(r).rest()),
                event_view::<i8, i16>(),
            ),
    {
        let ghost start = *old(r);
        let _ = r.remaining();
        let n = read_byte_counts(r)?;
        proof {
            Reader::lemma_rest_skip(start, *r);
        }
        let d3: Vec<i32> = vec![n[0], n[1], n[2]];
        let d4: Vec<i32> = vec![n[0], n[1], n[3], n[2]];
        assert(d3@ =~= seq![n@[0], n@[1], n@[2]]);
        assert(d4@ =~= seq![n@[0], n@[1], n@[3], n@[2]]);
        let (_a, selected_stages) = read_block3::<i8>(r, false, &d3)?;
        proof {
            Reader::lemma_rest_skip(start, *r);
        }
        let (_b, clear_progress) = read_block3::<i8>(r, false, &d3)?;
        proof {
            Reader::lemma_rest_skip(start, *r);
        }
        let (_c, clear_amounts) = read_block4::<i16>(r, false, &d4)?;
        proof {
            Reader::lemma_rest_skip(start, *r);
        }
        let (_d, unlock_state) = read_block3::<i8>(r, false, &d3)?;
        Ok(EventChaptersT { selected_stages, clear_progress, clear_amounts, unlock_state })
    }

    pub fn write(&self, w: &mut Writer)
        ensures
            final(w).bytes() == old(w).bytes() + spec_write_event_chapters_byte(self@),
    {
        let total_map_types = self.get_total_map_types();
        let total_subchapters = self.get_total_subchapters();
        let stars_per_subchapter = self.get_stars_per_subchapter();
        let stages_per_subchapter = self.get_stages_per_subchapter();
        (total_map_types as i8).write(w);
        (total_subchapters as i16).write(w);
        (stars_per_subchapter as i8).write(w);
        (stages_per_subchapter as i8).write(w);
        let d3: Vec<usize> = vec![total_map_types, total_subchapters, stars_per_subchapter];
        let d4: Vec<usize> = vec![
            total_map_types,
            total_subchapters,
            stages_per_subchapter,
            stars_per_subchapter,
        ];
        write_block3::<i8>(w, false, &d3, &self.selected_stages);
        write_block3::<i8>(w, false, &d3, &self.clear_progress);
        write_block4::<i16>(w, false, &d4, &self.clear_amounts);
        write_block3::<i8>(w, false, &d3, &self.unlock_state);
        let ghost d = event_byte_write_dims(self@);
        assert(d3@ =~= seq![d[0], d[1], d[2]]);
        assert(d4@ =~= seq![d[0], d[1], d[3], d[2]]);
        assert(w.bytes() =~= old(w).bytes() + spec_write_event_chapters_byte(self@));
    }
}

/// The shape the byte layout keeps: each grid has exactly the counts it is
/// written with, and the counts fit their byte or short.
pub open spec fn event_byte_shaped(v: EventChaptersView<i8, i16>) -> bool {
    let d = event_byte_write_dims(v);
    &&& is_grid3(v.0, d[0] as nat, d[1] as nat, d[2] as nat)
    &&& is_grid3(v.1, d[0] as nat, d[1] as nat, d[2] as nat)
    &&& is_grid4(v.2, d[0] as nat, d[1] as nat, d[3] as nat, d[2] as nat)
    &&& is_grid3(v.3, d[0] as nat, d[1] as nat, d[2] as nat)
    &&& d[0] <= i8::MAX && d[1] <= i16::MAX && d[2] <= i8::MAX && d[3] <= i8::MAX
}

/// Event progress in the byte layout reads back as what was written, for
/// progress of the shape the layout keeps.
#[verifier::rlimit(40)]
pub proof fn lemma_event_chapters_byte_roundtrip(v: EventChaptersView<i8, i16>, rest: Seq<u8>)
    requires
        event_byte_shaped(v),
    ensures
        spec_read_event_chapters_byte(spec_write_event_chapters_byte(v) + rest) == Some(
            (v, spec_write_event_chapters_byte(v).len() as int),
        ),
{
    let d = event_byte_write_dims(v);
    let d3 = seq![d[0], d[1], d[2]];
    let d4 = seq![d[0], d[1], d[3], d[2]];
    let a = (d[0] as i8).spec_write();
    let b = (d[1] as i16).spec_write();
    let c = (d[2] as i8).spec_write();
    let e = (d[3] as i8).spec_write();
    let w1 = spec_write_block3::<i8>(false, d3, v.0);
    let w2 = spec_write_block3::<i8>(false, d3, v.1);
    let w3 = spec_write_block4::<i16>(false, d4, v.2);
    let w4 = spec_write_block3::<i8>(false, d3, v.3);
    let tail = w1 + (w2 + (w3 + (w4 + rest)));
    let bytes = spec_write_event_chapters_byte(v) + rest;
    assert(bytes =~= a + (b + (c + (e + tail))));
    i8::lemma_roundtrip(d[0] as i8, b + (c + (e + tail)));
    assert(bytes.skip(a.len() as int) =~= b + (c + (e + tail)));
    i16::lemma_roundtrip(d[1] as i16, c + (e + tail));
    assert(bytes.skip((a.len() + b.len()) as int) =~= c + (e + tail));
    i8::lemma_roundtrip(d[2] as i8, e + tail);
    assert(bytes.skip((a.len() + b.len() + c.len()) as int) =~= e + tail);
    i8::lemma_roundtrip(d[3] as i8, tail);
    let k0 = a.len() + b.len() + c.len() + e.len();
    assert(bytes.skip(k0 as int) =~= tail);
    let n = seq![(d[0] as i8) as i32, (d[1] as i16) as i32, (d[2] as i8) as i32, (d[3] as i8) as i32];
    assert(spec_read_byte_counts(bytes) == Some((n, k0 as int)));
    let n3 = seq![n[0], n[1], n[2]];
    let n4 = seq![n[0], n[1], n[3], n[2]];
    assert(0 <= n3[0] && n3[0] as usize == d3[0]);
    assert(0 <= n3[1] && n3[1] as usize == d3[1]);
    assert(0 <= n3[2] && n3[2] as usize == d3[2]);
    assert(0 <= n4[0] && n4[0] as usize == d4[0]);
    assert(0 <= n4[1] && n4[1] as usize == d4[1]);
    assert(0 <= n4[2] && n4[2] as usize == d4[2]);
    assert(0 <= n4[3] && n4[3] as usize == d4[3]);
    assert(block_counts(false, n3, d3) == n3);
    assert(block_counts(false, n4, d4) == n4);
    lemma_block3_roundtrip::<i8>(false, n3, d3, v.0, w2 + (w3 + (w4 + rest)));
    assert(bytes.skip((k0 + w1.len()) as int) =~= w2 + (w3 + (w4 + rest)));
    lemma_block3_roundtrip::<i8>(false, n3, d3, v.1, w3 + (w4 + rest));
    assert(bytes.skip((k0 + w1.len() + w2.len()) as int) =~= w3 + (w4 + rest));
    lemma_block4_roundtrip::<i16>(false, n4, d4, v.2, w4 + rest);
    assert(bytes.skip((k0 + w1.len() + w2.len() + w3.len()) as int) =~= w4 + rest);
    lemma_block3_roundtrip::<i8>(false, n3, d3, v.3, rest);
}

/* Converting between the layouts */

/// Progress of the 32-bit layout with each value cut to a byte or a short.
pub open spec fn narrow_view(v: EventChaptersView<i32, i32>) -> EventChaptersView<i8, i16> {
    (
        cast_seq3::<i32, i8>(v.0),
        cast_seq3::<i32, i8>(v.1),
        cast_seq4::<i32, i16>(v.2),
        cast_seq3::<i32, i8>(v.3),
    )
}

/// Progress of the byte layout with each value widened to 32 bits.
pub open spec fn widen_view(v: EventChaptersView<i8, i16>) -> EventChaptersView<i32, i32> {
    (
        cast_seq3::<i8, i32>(v.0),
        cast_seq3::<i8, i32>(v.1),
        cast_seq4::<i16, i32>(v.2),
        cast_seq3::<i8, i32>(v.3),
    )
}

impl EventChaptersT<i8, i16> {
    /// The same progress with each value cut to a byte or a short.
    pub fn from(value: &EventChaptersT<i32, i32>) -> (r: Self)
        ensures
            r@ == narrow_view(value@),
    {
        EventChaptersT {
            selected_stages: cast_grid3(&value.selected_stages),
            clear_progress: cast_grid3(&value.clear_progress),
            clear_amounts: cast_grid4(&value.clear_amounts),
            unlock_state: cast_grid3(&value.unlock_state),
        }
    }
}

impl EventChaptersT<i32, i32> {
    /// The same progress with each value widened to 32 bits.
    pub fn from(value: &EventChaptersT<i8, i16>) -> (r: Self)
        ensures
            r@ == widen_view(value@),
    {
        EventChaptersT {
            selected_stages: cast_grid3(&value.selected_stages),
            clear_progress: cast_grid3(&value.clear_progress),
            clear_amounts: cast_grid4(&value.clear_amounts),
            unlock_state: cast_grid3(&value.unlock_state),
        }
    }
}

/// Event progress in whichever layout it was read in.
#[derive(Debug, Clone)]
pub enum EventChapters {
    Int(EventChaptersT<i32, i32>),
    Byte(EventChaptersT<i8, i16>),
}

/// Event progress as sequences, in whichever layout it is in.
pub enum EventChaptersModel {
    Int(EventChaptersView<i32, i32>),
    Byte(EventChaptersView<i8, i16>),
}

impl View for EventChapters {
    type V = EventChaptersModel;

    open spec fn view(&self) -> EventChaptersModel {
        match self {
            EventChapters::Int(x) => EventChaptersModel::Int(x@),
            EventChapters::Byte(x) => EventChaptersModel::Byte(x@),
        }
    }
}

impl Default for EventChapters {
    fn default() -> (d: Self)
        ensures
            d matches EventChapters::Int(x) && x@.0.len() == 0 && x@.1.len() == 0 && x@.2.len() == 0
                && x@.3.len() == 0,
    {
        EventChapters::Int(EventChaptersT::default())
    }
}

/// Whether a version stores event progress in the byte layout: from 8.1 on.
pub open spec fn event_byte_layout(gv: u32) -> bool {
    gv >= 80100
}

pub open spec fn spec_read_event_chapters(gv: u32, bytes: Seq<u8>) -> Option<(EventChaptersModel, int)> {
    if event_byte_layout(gv) {
        match spec_read_event_chapters_byte(bytes) {
            Some((v, k)) => Some((EventChaptersModel::Byte(v), k)),
            None => None,
        }
    } else {
        match spec_read_event_chapters_int(gv, bytes) {
            Some((v, k)) => Some((EventChaptersModel::Int(v), k)),
            None => None,
        }
    }
}

/// Progress converted to the layout of the version, as it is written.
pub open spec fn event_model_for(gv: u32, m: EventChaptersModel) -> EventChaptersModel {
    match m {
        EventChaptersModel::Int(v) => if event_byte_layout(gv) {
            EventChaptersModel::Byte(narrow_view(v))
        } else {
            EventChaptersModel::Int(v)
        },
        EventChaptersModel::Byte(v) => if event_byte_layout(gv) {
            EventChaptersModel::Byte(v)
        } else {
            EventChaptersModel::Int(widen_view(v))
        },
    }
}

pub open spec fn spec_write_event_chapters(gv: u32, m: EventChaptersModel) -> Seq<u8> {
    match event_model_for(gv, m) {
        EventChaptersModel::Int(v) => spec_write_event_chapters_int(gv, v),
        EventChaptersModel::Byte(v) => spec_write_event_chapters_byte(v),
    }
}

pub open spec fn event_chapters_view() -> spec_fn(EventChapters) -> EventChaptersModel {
    |e: EventChapters| e@
}

impl EventChapters {
    pub fn read(r: &mut Reader, args: GVCC) -> (res: StreamResult<Self>)
        ensures
            read_result_view(
                *old(r),
                *final(r),
                res,
                spec_read_event_chapters(args.gv.0, old(r).rest()),
                event_chapters_view(),
            ),
    {
        if args.gv.0 < 80100 {
            Ok(EventChapters::Int(EventChaptersT::<i32, i32>::read(r, args)?))
        } else {
            Ok(EventChapters::Byte(EventChaptersT::<i8, i16>::read(r)?))
        }
    }

    /// Writes the progress in the layout of the version, converting it where
    /// it was read in the other one.
    pub fn write(&self, w: &mut Writer, args: GVCC)
        ensures
            final(w).bytes() == old(w).bytes() + spec_write_event_chapters(args.gv.0, self@),
    {
        let is_int = args.gv.0 < 80100;
        match self {
            EventChapters::Int(x) => {
                if is_int {
                    x.write(w, args);
                } else {
                    let other = EventChaptersT::<i8, i16>::from(x);
                    other.write(w);
                }
            },
            EventChapters::Byte(x) => {
                if is_int {
                    let other = EventChaptersT::<i32, i32>::from(x);
                    other.write(w, args);
                } else {
                    x.write(w);
                }
            },
        }
    }
}

/// Whether progress, once converted to the layout of the version, has the
/// shape that layout keeps.
pub open spec fn event_chapters_shaped(gv: u32, m: EventChaptersModel) -> bool {
    match event_model_for(gv, m) {
        EventChaptersModel::Int(v) => event_int_shaped(gv, v),
        EventChaptersModel::Byte(v) => event_byte_shaped(v),
    }
}

/// Event progress reads back as what was written, converted to the layout
/// of the version, for progress of the shape that layout keeps.
pub proof fn lemma_event_chapters_roundtrip(gv: u32, m: EventChaptersModel, rest: Seq<u8>)
    requires
        event_chapters_shaped(gv, m),
    ensures
        spec_read_event_chapters(gv, spec_write_event_chapters(gv, m) + rest) == Some(
            (event_model_for(gv, m), spec_write_event_chapters(gv, m).len() as int),
        ),
{
    match event_model_for(gv, m) {
        EventChaptersModel::Int(v) => {
            lemma_event_chapters_int_roundtrip(gv, v, rest);
        },
        EventChaptersModel::Byte(v) => {
            lemma_event_chapters_byte_roundtrip(v, rest);
        },
    }
}


/// Saves from version 8.1.0 (80100) on keep event progress in the byte
/// layout, older ones in the 32-bit layout: reading takes that layout, and
/// writing turns the progress into it.
pub proof fn lemma_event_layout_by_version(gv: u32, bytes: Seq<u8>, m: EventChaptersModel)
    ensures
        gv >= 80100 ==> spec_read_event_chapters(gv, bytes) == match spec_read_event_chapters_byte(bytes) {
            Some((v, k)) => Some((EventChaptersModel::Byte(v), k)),
            None => None,
        },
        gv < 80100 ==> spec_read_event_chapters(gv, bytes) == match spec_read_event_chapters_int(gv, bytes) {
            Some((v, k)) => Some((EventChaptersModel::Int(v), k)),
            None => None,
        },
        gv >= 80100 ==> event_model_for(gv, m) is Byte,
        gv < 80100 ==> event_model_for(gv, m) is Int,
{
}

} // verus!
