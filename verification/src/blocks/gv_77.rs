//! More uncanny legends, lucky tickets and a flag.

use vstd::prelude::*;
use crate::blocks::marker::{read_marker, spec_read_marker};
use crate::blocks::gv_76::{spec_read_uncanny, spec_write_uncanny, UncannyChapters, UncannyView};
use crate::stream::{Reader, StreamResult, Writer, Readable, Writable};
use crate::stream::compound::{Assertable, LengthVec};
use crate::stream::lists::{read_result_view, spec_read_vec, spec_write_vec, VecArgsLength, lemma_vec_reader_bounded, vec_reader};

verus! {

/// Uncanny chapters, lucky tickets counted by a 32-bit number, a flag, then
/// the marker.
pub open spec fn spec_read_uncanny_tickets(marker: i32, bytes: Seq<u8>) -> Option<((UncannyView, Seq<i32>, Seq<i32>, bool), int)> {
    match spec_read_uncanny(bytes) {
        Some((u, k1)) => match spec_read_vec::<i32>(VecArgsLength::I32, bytes.skip(k1)) {
            Some((t, k2)) => match bool::spec_read(bytes.skip(k1 + k2)) {
                Some((b, k3)) => match spec_read_marker(marker, bytes.skip(k1 + k2 + k3)) {
                    Some(k4) => Some(((u.0, u.1, t, b), k1 + k2 + k3 + k4)),
                    None => None,
                },
                None => None,
            },
            None => None,
        },
        None => None,
    }
}

pub open spec fn spec_write_uncanny_tickets(
    marker: i32,
    c: UncannyView,
    u: Seq<i32>,
    t: Seq<i32>,
    b: bool,
) -> Seq<u8> {
    spec_write_uncanny(c, u) + spec_write_vec::<i32>(VecArgsLength::I32, t) + b.spec_write() + marker.spec_write()
}

/// Reads the layout shared by the blocks of uncanny chapters and lucky tickets.
pub fn read_uncanny_tickets(r: &mut Reader, marker: i32) -> (res: StreamResult<(UncannyChapters, LengthVec<i32>, bool, Assertable)>)
    ensures
        read_result_view(
            *old(r),
            *final(r),
            res,
            spec_read_uncanny_tickets(marker, old(r).rest()),
            |x: (UncannyChapters, LengthVec<i32>, bool, Assertable)| (x.0.chapters@, x.0.unknown@, x.1.0@, x.2),
        ),
{
    let ghost start = *old(r);
    let _ = r.remaining();
    let u = UncannyChapters::read(r)?;
    proof {
        Reader::lemma_rest_skip(start, *r);
    }
    let ghost mid = *r;
    let t = LengthVec::<i32>::read(r, VecArgsLength::I32)?;
    proof {
        lemma_vec_reader_bounded::<i32>(VecArgsLength::I32);
        assert(vec_reader::<i32>(VecArgsLength::I32)(mid.rest()) == spec_read_vec::<i32>(VecArgsLength::I32, mid.rest()));
        Reader::lemma_rest_skip(start, *r);
    }
    let ghost mid2 = *r;
    let b = bool::read(r)?;
    proof {
        bool::lemma_read_bounds(mid2.rest());
        Reader::lemma_rest_skip(start, *r);
    }
    let m = read_marker(r, marker)?;
    Ok((u, t, b, m))
}

/// Writes the layout shared by the blocks of uncanny chapters and lucky tickets.
pub fn write_uncanny_tickets(w: &mut Writer, u: &UncannyChapters, t: &LengthVec<i32>, b: bool, marker: i32)
    ensures
        final(w).bytes() == old(w).bytes() + spec_write_uncanny_tickets(marker, u.chapters@, u.unknown@, t.0@, b),
{
    u.write(w);
    t.write(w, VecArgsLength::I32);
    b.write(w);
    marker.write(w);
    assert(w.bytes() =~= old(w).bytes() + spec_write_uncanny_tickets(marker, u.chapters@, u.unknown@, t.0@, b));
}

#[derive(Debug, Clone)]
pub struct GV77Block {
    pub uncanny_chapters2: UncannyChapters,
    pub lucky_tickets: LengthVec<i32>,
    pub unkown: bool,
    pub _77: Assertable,
}

impl GV77Block {
    pub fn read(r: &mut Reader) -> (res: StreamResult<Self>)
        ensures
            read_result_view(
                *old(r),
                *final(r),
                res,
                spec_read_uncanny_tickets(77, old(r).rest()),
                |x: Self| (x.uncanny_chapters2.chapters@, x.uncanny_chapters2.unknown@, x.lucky_tickets.0@, x.unkown),
            ),
    {
        let (uncanny_chapters2, lucky_tickets, unkown, _77) = read_uncanny_tickets(r, 77)?;
        Ok(GV77Block { uncanny_chapters2, lucky_tickets, unkown, _77 })
    }

    pub fn write(&self, w: &mut Writer)
        ensures
            final(w).bytes() == old(w).bytes() + spec_write_uncanny_tickets(
                77,
                self.uncanny_chapters2.chapters@,
                self.uncanny_chapters2.unknown@,
                self.lucky_tickets.0@,
                self.unkown,
            ),
    {
        write_uncanny_tickets(w, &self.uncanny_chapters2, &self.lucky_tickets, self.unkown, 77);
    }
}

} // verus!
