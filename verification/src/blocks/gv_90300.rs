//! Gauntlets: chapters in the byte layout (a 16-bit chapter count), one
//! byte per chapter after them; records of numbers and timestamps kept with
//! them.

use vstd::prelude::*;
use crate::save::chapters::{
    ChaptersGeneric, GenericChapterArgs, LengthType, StageRecord, TotalStages, spec_read_chapters,
    spec_write_chapters, ChaptersView,
};
use crate::stream::{Codec, Reader, StreamResult, Writer, Readable, Writable};
use crate::blocks::marker::{read_marker, spec_read_marker};
use crate::stream::compound::{Assertable, HashMapLength, LengthVec, spec_read_map};
use crate::stream::lists::{
    read_result_view, read_vec, spec_read_vec, spec_write_vec, write_vec, VecArgs, VecArgsLength,
    lemma_vec_reader_bounded, vec_reader, vec_writable,
};

verus! {

pub type GauntletView = ChaptersView<i8, i8, Seq<Seq<i16>>, i8>;

/// The layout of gauntlet chapters: a 16-bit chapter count, byte stage and
/// star counts, given once.
pub open spec fn gauntlet_args() -> GenericChapterArgs {
    GenericChapterArgs {
        read_length_every_time: false,
        total_chapters_type: LengthType::I16,
        total_stages_type: LengthType::I8,
        total_stars_type: LengthType::I8,
    }
}

fn gauntlet_args_exec() -> (a: GenericChapterArgs)
    ensures
        a == gauntlet_args(),
{
    GenericChapterArgs {
        read_length_every_time: false,
        total_chapters_type: LengthType::I16,
        total_stages_type: LengthType::I8,
        total_stars_type: LengthType::I8,
    }
}

#[derive(Debug, Clone)]
pub struct GauntletChapters {
    pub chapters: ChaptersGeneric<i8, i8, Vec<Vec<i16>>, i8>,
    pub unknown: Vec<i8>,
}

pub open spec fn spec_read_gauntlet(bytes: Seq<u8>) -> Option<((GauntletView, Seq<i8>), int)> {
    match spec_read_chapters::<i8, i8, Vec<Vec<i16>>, i8>(gauntlet_args(), bytes) {
        Some((c, k1)) => match spec_read_vec::<i8>(VecArgsLength::Fixed(c.0.len() as usize), bytes.skip(k1)) {
            Some((u, k2)) => Some(((c, u), k1 + k2)),
            None => None,
        },
        None => None,
    }
}

pub open spec fn spec_write_gauntlet(c: GauntletView, u: Seq<i8>) -> Seq<u8> {
    spec_write_chapters::<i8, i8, Vec<Vec<i16>>, i8>(gauntlet_args(), c) + spec_write_vec::<i8>(
        VecArgsLength::Fixed(c.0.len() as usize),
        u,
    )
}

impl GauntletChapters {
    pub fn read(r: &mut Reader) -> (res: StreamResult<Self>)
        ensures
            read_result_view(*old(r), *final(r), res, spec_read_gauntlet(old(r).rest()), |x: Self| (x.chapters@, x.unknown@)),
            res is Ok ==> old(r).position() <= final(r).position(),
    {
        let ghost start = *old(r);
        let _ = r.remaining();
        let chapters = ChaptersGeneric::<i8, i8, Vec<Vec<i16>>, i8>::read(r, gauntlet_args_exec())?;
        proof {
            Reader::lemma_rest_skip(start, *r);
        }
        let total_chapters = chapters.total_chapters();
        let ghost mid = *r;
        let unknown = read_vec::<i8>(r, VecArgs::new_empty_fixed(total_chapters))?;
        proof {
            lemma_vec_reader_bounded::<i8>(VecArgsLength::Fixed(total_chapters));
            assert(vec_reader::<i8>(VecArgsLength::Fixed(total_chapters))(mid.rest()) == spec_read_vec::<i8>(
                VecArgsLength::Fixed(total_chapters),
                mid.rest(),
            ));
        }
        Ok(GauntletChapters { chapters, unknown })
    }

    pub fn write(&self, w: &mut Writer)
        ensures
            final(w).bytes() == old(w).bytes() + spec_write_gauntlet(self.chapters@, self.unknown@),
    {
        assert forall|i: int| 0 <= i < self.chapters.stages@.len() implies #[trigger] <Vec<Vec<i16>> as StageRecord>::writable(
            self.chapters.stages@[i].model(),
        ) by {}
        self.chapters.write(w, gauntlet_args_exec());
        write_vec::<i8>(w, self.unknown.as_slice(), VecArgs::new_empty_fixed(self.chapters.total_chapters()));
        assert(w.bytes() =~= old(w).bytes() + spec_write_gauntlet(self.chapters@, self.unknown@));
    }
}

/// A record of numbers kept with gauntlets.
#[derive(Debug, Clone, Copy, PartialEq, Eq, Structural)]
pub struct Unknown90300 {
    pub u1: i32,
    pub u2: i32,
    pub u3: i16,
    pub u4: i32,
    pub u5: i32,
    pub u6: i32,
    pub u7: i16,
}

pub type Unknown90300Tuple = (i32, (i32, (i16, (i32, (i32, (i32, i16))))));

pub open spec fn unknown90300_tuple(v: Unknown90300) -> Unknown90300Tuple {
    (v.u1, (v.u2, (v.u3, (v.u4, (v.u5, (v.u6, v.u7))))))
}

impl Readable for Unknown90300 {
    open spec fn spec_read(bytes: Seq<u8>) -> Option<(Unknown90300, int)> {
        match Unknown90300Tuple::spec_read(bytes) {
            Some((t, k)) => Some(
                (
                    Unknown90300 {
                        u1: t.0,
                        u2: t.1.0,
                        u3: t.1.1.0,
                        u4: t.1.1.1.0,
                        u5: t.1.1.1.1.0,
                        u6: t.1.1.1.1.1.0,
                        u7: t.1.1.1.1.1.1,
                    },
                    k,
                ),
            ),
            None => None,
        }
    }

    proof fn lemma_read_bounds(bytes: Seq<u8>) {
        Unknown90300Tuple::lemma_read_bounds(bytes);
    }

    fn read(r: &mut Reader) -> (res: StreamResult<Unknown90300>) {
        let (u1, (u2, (u3, (u4, (u5, (u6, u7)))))) = Unknown90300Tuple::read(r)?;
        Ok(Unknown90300 { u1, u2, u3, u4, u5, u6, u7 })
    }
}

impl Writable for Unknown90300 {
    open spec fn spec_write(&self) -> Seq<u8> {
        unknown90300_tuple(*self).spec_write()
    }

    open spec fn can_write(&self) -> bool {
        true
    }

    open spec fn spec_default() -> Unknown90300 {
        Unknown90300 { u1: 0, u2: 0, u3: 0, u4: 0, u5: 0, u6: 0, u7: 0 }
    }

    fn write(&self, w: &mut Writer) {
        (self.u1, (self.u2, (self.u3, (self.u4, (self.u5, (self.u6, self.u7)))))).write(w);
    }

    fn default_value() -> (d: Unknown90300) {
        Unknown90300 { u1: 0, u2: 0, u3: 0, u4: 0, u5: 0, u6: 0, u7: 0 }
    }

    proof fn lemma_default_writable() {
    }
}

impl Codec for Unknown90300 {
    proof fn lemma_roundtrip(v: Unknown90300, rest: Seq<u8>) {
        Unknown90300Tuple::lemma_roundtrip(unknown90300_tuple(v), rest);
    }
}

/// Records counted by an `i16`, timestamps by `i32` keys (the bits of the
/// `f64` each is stored as) counted by an `i16`, the gauntlets, then the
/// marker 90300.
#[derive(Debug, Clone)]
pub struct GV90300Block {
    pub unknown: LengthVec<Unknown90300>,
    pub unknown_2: HashMapLength<i32, u64>,
    pub gauntlet_chapters: GauntletChapters,
}

pub type GV90300Model = (Seq<Unknown90300>, Seq<(i32, u64)>, (GauntletView, Seq<i8>));

pub open spec fn gv90300_model(b: GV90300Block) -> GV90300Model {
    (b.unknown.0@, b.unknown_2.0@, (b.gauntlet_chapters.chapters@, b.gauntlet_chapters.unknown@))
}

pub open spec fn spec_read_gv90300(bytes: Seq<u8>) -> Option<(GV90300Model, int)> {
    match spec_read_vec::<Unknown90300>(VecArgsLength::I16, bytes) {
        Some((u, k1)) => match spec_read_map::<i32, u64>(VecArgsLength::I16, bytes.skip(k1)) {
            Some((m, k2)) => match spec_read_gauntlet(bytes.skip(k1 + k2)) {
                Some((g, k3)) => match spec_read_marker(90300, bytes.skip(k1 + k2 + k3)) {
                    Some(k4) => Some(((u, m, g), k1 + k2 + k3 + k4)),
                    None => None,
                },
                None => None,
            },
            None => None,
        },
        None => None,
    }
}

pub open spec fn spec_write_gv90300(m: GV90300Model) -> Seq<u8> {
    spec_write_vec::<Unknown90300>(VecArgsLength::I16, m.0) + spec_write_vec::<(i32, u64)>(VecArgsLength::I16, m.1)
        + spec_write_gauntlet(m.2.0, m.2.1) + 90300i32.spec_write()
}

impl GV90300Block {
    pub fn read(r: &mut Reader) -> (res: StreamResult<Self>)
        ensures
            read_result_view(*old(r), *final(r), res, spec_read_gv90300(old(r).rest()), |b: Self| gv90300_model(b)),
    {
        let ghost start = *old(r);
        let _ = r.remaining();
        let unknown = LengthVec::<Unknown90300>::read(r, VecArgsLength::I16)?;
        let ghost p1 = *r;
        proof {
            lemma_vec_reader_bounded::<Unknown90300>(VecArgsLength::I16);
            assert(vec_reader::<Unknown90300>(VecArgsLength::I16)(start.rest()) == spec_read_vec::<Unknown90300>(
                VecArgsLength::I16,
                start.rest(),
            ));
            Reader::lemma_rest_skip(start, p1);
        }
        let unknown_2 = HashMapLength::<i32, u64>::read(r, VecArgsLength::I16)?;
        let ghost p2 = *r;
        proof {
            lemma_vec_reader_bounded::<(i32, u64)>(VecArgsLength::I16);
            assert(vec_reader::<(i32, u64)>(VecArgsLength::I16)(p1.rest()) == spec_read_vec::<(i32, u64)>(
                VecArgsLength::I16,
                p1.rest(),
            ));
            Reader::lemma_rest_skip(p1, p2);
            Reader::lemma_rest_skip(start, p2);
            let k1 = p1.position() - start.position();
            let k2 = p2.position() - p1.position();
            assert(start.rest().skip(k1).skip(k2) =~= start.rest().skip(k1 + k2));
        }
        let gauntlet_chapters = GauntletChapters::read(r)?;
        let ghost p3 = *r;
        proof {
            Reader::lemma_rest_skip(p2, p3);
            Reader::lemma_rest_skip(start, p3);
            let k12 = p2.position() - start.position();
            let k3 = p3.position() - p2.position();
            assert(start.rest().skip(k12).skip(k3) =~= start.rest().skip(k12 + k3));
        }
        read_marker(r, 90300)?;
        Ok(GV90300Block { unknown, unknown_2, gauntlet_chapters })
    }

    pub fn write(&self, w: &mut Writer)
        ensures
            final(w).bytes() == old(w).bytes() + spec_write_gv90300(gv90300_model(*self)),
    {
        assert(vec_writable(VecArgsLength::I16, self.unknown.0@));
        self.unknown.write(w, VecArgsLength::I16);
        assert(vec_writable(VecArgsLength::I16, self.unknown_2.0@));
        self.unknown_2.write(w, VecArgsLength::I16);
        self.gauntlet_chapters.write(w);
        let marker = Assertable;
        marker.write(w, 90300);
        assert(w.bytes() =~= old(w).bytes() + spec_write_gv90300(gv90300_model(*self)));
    }
}

} // verus!
