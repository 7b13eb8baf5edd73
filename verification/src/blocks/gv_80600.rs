//! Legend quests: chapters in the byte layout whose stage records hold clear
//! times and attempts, then a byte per chapter and an id per stage.

use vstd::prelude::*;
use crate::blocks::marker::{read_marker, spec_read_marker};
use crate::save::chapters::{
    ChaptersGeneric, GenericChapterArgs, LengthType, StageRecord, TotalStages, spec_read_chapters,
    spec_write_chapters, ChaptersView, chapters_total_stages, stage_models,
};
use crate::stream::{Codec, Reader, StreamResult, Writer, Readable, Writable};
use crate::stream::compound::{Assertable, LengthVec};
use crate::stream::lists::{
    read_result_view, read_vec, read_vec2, spec_read_vec, spec_read_vec2, spec_write_vec, spec_write_vec2,
    write_vec, write_vec2, VecArgs, VecArgsLength, lemma_vec_reader_bounded, vec_reader, vec2_view,
    lemma_vec2_reader_bounded, vec2_reader_at, lemma_grid2_roundtrip, is_grid2,
};

verus! {

/// Clear times and attempts of each stage and star level.
#[derive(Debug, Clone)]
pub struct LegendQuestStage {
    pub clear_times: Vec<Vec<i16>>,
    pub attemps: Vec<Vec<i16>>,
}

/// How many stages and star levels legend quest records have.
#[derive(Debug, Clone, Copy, PartialEq, Eq, Structural)]
pub struct LegendQuestStageArgs {
    pub total_stages: usize,
    pub total_stars: usize,
}

impl TotalStages for LegendQuestStage {
    type Model = (Seq<Seq<i16>>, Seq<Seq<i16>>);

    open spec fn model(&self) -> (Seq<Seq<i16>>, Seq<Seq<i16>>) {
        (vec2_view()(self.clear_times), vec2_view()(self.attemps))
    }

    open spec fn model_total(m: (Seq<Seq<i16>>, Seq<Seq<i16>>)) -> nat {
        m.0.len()
    }

    /// The number of stages: the rows of clear times.
    fn total(&self) -> (n: usize) {
        self.clear_times.len()
    }
}

pub open spec fn grid_args(stages: usize, stars: usize) -> (VecArgsLength, VecArgsLength) {
    (VecArgsLength::Fixed(stages), VecArgsLength::Fixed(stars))
}

impl StageRecord for LegendQuestStage {
    open spec fn spec_read_stages(stages: usize, stars: usize, bytes: Seq<u8>) -> Option<
        ((Seq<Seq<i16>>, Seq<Seq<i16>>), int),
    > {
        match spec_read_vec2::<i16>(VecArgsLength::Fixed(stages), VecArgsLength::Fixed(stars), bytes) {
            Some((a, k1)) => match spec_read_vec2::<i16>(
                VecArgsLength::Fixed(stages),
                VecArgsLength::Fixed(stars),
                bytes.skip(k1),
            ) {
                Some((b, k2)) => Some(((a, b), k1 + k2)),
                None => None,
            },
            None => None,
        }
    }

    open spec fn spec_write_stages(m: (Seq<Seq<i16>>, Seq<Seq<i16>>), stages: usize, stars: usize) -> Seq<u8> {
        spec_write_vec2::<i16>(VecArgsLength::Fixed(stages), VecArgsLength::Fixed(stars), m.0)
            + spec_write_vec2::<i16>(VecArgsLength::Fixed(stages), VecArgsLength::Fixed(stars), m.1)
    }

    open spec fn writable(m: (Seq<Seq<i16>>, Seq<Seq<i16>>)) -> bool {
        true
    }

    open spec fn shaped(m: (Seq<Seq<i16>>, Seq<Seq<i16>>), stages: usize, stars: usize) -> bool {
        &&& is_grid2(m.0, stages as nat, stars as nat)
        &&& is_grid2(m.1, stages as nat, stars as nat)
    }

    open spec fn default_model() -> (Seq<Seq<i16>>, Seq<Seq<i16>>) {
        (Seq::empty(), Seq::empty())
    }

    proof fn lemma_read_bounds(stages: usize, stars: usize, bytes: Seq<u8>) {
        let l2 = VecArgsLength::Fixed(stages);
        let l1 = VecArgsLength::Fixed(stars);
        lemma_vec2_reader_bounded::<i16>(l2, l1);
        assert(vec2_reader_at::<i16>(l2, l1)(bytes) == spec_read_vec2::<i16>(l2, l1, bytes));
        if let Some((a, k1)) = spec_read_vec2::<i16>(l2, l1, bytes) {
            assert(vec2_reader_at::<i16>(l2, l1)(bytes.skip(k1)) == spec_read_vec2::<i16>(l2, l1, bytes.skip(k1)));
        }
    }

    proof fn lemma_default() {
    }

    proof fn lemma_roundtrip(m: (Seq<Seq<i16>>, Seq<Seq<i16>>), stages: usize, stars: usize, rest: Seq<u8>) {
        let l2 = VecArgsLength::Fixed(stages);
        let l1 = VecArgsLength::Fixed(stars);
        let a = spec_write_vec2::<i16>(l2, l1, m.0);
        let b = spec_write_vec2::<i16>(l2, l1, m.1);
        lemma_grid2_roundtrip::<i16>(m.0, stages, stars, b + rest);
        lemma_grid2_roundtrip::<i16>(m.1, stages, stars, rest);
        assert(a + b + rest =~= a + (b + rest));
        assert((a + (b + rest)).skip(a.len() as int) =~= b + rest);
    }

    fn read_stages(r: &mut Reader, stages: usize, stars: usize) -> (res: StreamResult<Self>) {
        let ghost start = *old(r);
        let _ = r.remaining();
        let args = VecArgs { length: VecArgsLength::Fixed(stages), item: VecArgs::new_empty_fixed(stars) };
        let clear_times = read_vec2::<i16>(r, args)?;
        proof {
            lemma_vec2_reader_bounded::<i16>(VecArgsLength::Fixed(stages), VecArgsLength::Fixed(stars));
            assert(vec2_reader_at::<i16>(VecArgsLength::Fixed(stages), VecArgsLength::Fixed(stars))(start.rest())
                == spec_read_vec2::<i16>(VecArgsLength::Fixed(stages), VecArgsLength::Fixed(stars), start.rest()));
            Reader::lemma_rest_skip(start, *r);
        }
        let attemps = read_vec2::<i16>(r, args)?;
        Ok(LegendQuestStage { clear_times, attemps })
    }

    fn write_stages(&self, w: &mut Writer, stages: usize, stars: usize) {
        let args = VecArgs { length: VecArgsLength::Fixed(stages), item: VecArgs::new_empty_fixed(stars) };
        write_vec2::<i16>(w, &self.clear_times, args);
        write_vec2::<i16>(w, &self.attemps, args);
        assert(w.bytes() =~= old(w).bytes() + Self::spec_write_stages(self.model(), stages, stars));
    }

    fn default_stages() -> (d: Self) {
        let d = LegendQuestStage { clear_times: Vec::new(), attemps: Vec::new() };
        assert(vec2_view()(d.clear_times) =~= Seq::<Seq<i16>>::empty());
        assert(vec2_view()(d.attemps) =~= Seq::<Seq<i16>>::empty());
        d
    }
}

pub type LegendChaptersView = ChaptersView<i8, i8, (Seq<Seq<i16>>, Seq<Seq<i16>>), i8>;

/// The layout of legend quest chapters: byte counts, given once.
pub open spec fn legend_args() -> GenericChapterArgs {
    GenericChapterArgs {
        read_length_every_time: false,
        total_chapters_type: LengthType::I8,
        total_stages_type: LengthType::I8,
        total_stars_type: LengthType::I8,
    }
}

fn legend_args_exec() -> (a: GenericChapterArgs)
    ensures
        a == legend_args(),
{
    GenericChapterArgs {
        read_length_every_time: false,
        total_chapters_type: LengthType::I8,
        total_stages_type: LengthType::I8,
        total_stars_type: LengthType::I8,
    }
}

#[derive(Debug, Clone)]
pub struct LegendQuestChapters {
    pub chapters: ChaptersGeneric<i8, i8, LegendQuestStage, i8>,
}

impl LegendQuestChapters {
    pub fn read(r: &mut Reader) -> (res: StreamResult<Self>)
        ensures
            read_result_view(
                *old(r),
                *final(r),
                res,
                spec_read_chapters::<i8, i8, LegendQuestStage, i8>(legend_args(), old(r).rest()),
                |x: Self| x.chapters@,
            ),
            res is Ok ==> old(r).position() <= final(r).position(),
    {
        Ok(LegendQuestChapters { chapters: ChaptersGeneric::<i8, i8, LegendQuestStage, i8>::read(r, legend_args_exec())? })
    }

    pub fn write(&self, w: &mut Writer)
        ensures
            final(w).bytes() == old(w).bytes() + spec_write_chapters::<i8, i8, LegendQuestStage, i8>(
                legend_args(),
                self.chapters@,
            ),
    {
        self.chapters.write(w, legend_args_exec());
    }
}

/// Legend quests: the chapters, a byte per chapter, an id per stage.
#[derive(Debug, Clone)]
pub struct LegendQuest {
    pub chapters: LegendQuestChapters,
    pub unknown: Vec<i8>,
    pub ids: Vec<i32>,
}

pub open spec fn spec_read_legend_quest(bytes: Seq<u8>) -> Option<((LegendChaptersView, Seq<i8>, Seq<i32>), int)> {
    match spec_read_chapters::<i8, i8, LegendQuestStage, i8>(legend_args(), bytes) {
        Some((c, k1)) => match spec_read_vec::<i8>(VecArgsLength::Fixed(c.0.len() as usize), bytes.skip(k1)) {
            Some((u, k2)) => match spec_read_vec::<i32>(
                VecArgsLength::Fixed(chapters_total_stages::<LegendQuestStage>(c.2) as usize),
                bytes.skip(k1 + k2),
            ) {
                Some((ids, k3)) => Some(((c, u, ids), k1 + k2 + k3)),
                None => None,
            },
            None => None,
        },
        None => None,
    }
}

pub open spec fn spec_write_legend_quest(c: LegendChaptersView, u: Seq<i8>, ids: Seq<i32>) -> Seq<u8> {
    spec_write_chapters::<i8, i8, LegendQuestStage, i8>(legend_args(), c) + spec_write_vec::<i8>(
        VecArgsLength::Fixed(c.0.len() as usize),
        u,
    ) + spec_write_vec::<i32>(VecArgsLength::Fixed(chapters_total_stages::<LegendQuestStage>(c.2) as usize), ids)
}

impl LegendQuest {
    pub fn read(r: &mut Reader) -> (res: StreamResult<Self>)
        ensures
            read_result_view(
                *old(r),
                *final(r),
                res,
                spec_read_legend_quest(old(r).rest()),
                |x: Self| (x.chapters.chapters@, x.unknown@, x.ids@),
            ),
            res is Ok ==> old(r).position() <= final(r).position(),
    {
        let ghost start = *old(r);
        let _ = r.remaining();
        let chapters = LegendQuestChapters::read(r)?;
        proof {
            Reader::lemma_rest_skip(start, *r);
        }
        let total_chapters = chapters.chapters.total_chapters();
        let total_stages = chapters.chapters.total_stages();
        let ghost mid = *r;
        let unknown = read_vec::<i8>(r, VecArgs::new_empty_fixed(total_chapters))?;
        proof {
            lemma_vec_reader_bounded::<i8>(VecArgsLength::Fixed(total_chapters));
            assert(vec_reader::<i8>(VecArgsLength::Fixed(total_chapters))(mid.rest()) == spec_read_vec::<i8>(
                VecArgsLength::Fixed(total_chapters),
                mid.rest(),
            ));
            Reader::lemma_rest_skip(start, *r);
        }
        let ghost mid2 = *r;
        let ids = read_vec::<i32>(r, VecArgs::new_empty_fixed(total_stages))?;
        proof {
            lemma_vec_reader_bounded::<i32>(VecArgsLength::Fixed(total_stages));
            assert(vec_reader::<i32>(VecArgsLength::Fixed(total_stages))(mid2.rest()) == spec_read_vec::<i32>(
                VecArgsLength::Fixed(total_stages),
                mid2.rest(),
            ));
        }
        Ok(LegendQuest { chapters, unknown, ids })
    }

    pub fn write(&self, w: &mut Writer)
        ensures
            final(w).bytes() == old(w).bytes() + spec_write_legend_quest(
                self.chapters.chapters@,
                self.unknown@,
                self.ids@,
            ),
    {
        self.chapters.write(w);
        write_vec::<i8>(w, self.unknown.as_slice(), VecArgs::new_empty_fixed(self.chapters.chapters.total_chapters()));
        write_vec::<i32>(w, self.ids.as_slice(), VecArgs::new_empty_fixed(self.chapters.chapters.total_stages()));
        assert(w.bytes() =~= old(w).bytes() + spec_write_legend_quest(self.chapters.chapters@, self.unknown@, self.ids@));
    }
}

/// A counted list, legend quests, two numbers, then the marker 80600.
#[derive(Debug, Clone)]
pub struct GV80600Block {
    pub unknown_vec: LengthVec<i32>,
    pub legend_quest_chapters: LegendQuest,
    pub uknown_short: i16,
    pub unknown_byte: i8,
    pub _80600: Assertable,
}

pub open spec fn spec_read_gv80600(bytes: Seq<u8>) -> Option<
    ((Seq<i32>, (LegendChaptersView, Seq<i8>, Seq<i32>), i16, i8), int),
> {
    match spec_read_vec::<i32>(VecArgsLength::I16, bytes) {
        Some((v, k1)) => match spec_read_legend_quest(bytes.skip(k1)) {
            Some((q, k2)) => match <(i16, i8)>::spec_read(bytes.skip(k1 + k2)) {
                Some((t, k3)) => match spec_read_marker(80600, bytes.skip(k1 + k2 + k3)) {
                    Some(k4) => Some(((v, q, t.0, t.1), k1 + k2 + k3 + k4)),
                    None => None,
                },
                None => None,
            },
            None => None,
        },
        None => None,
    }
}

impl GV80600Block {
    pub fn read(r: &mut Reader) -> (res: StreamResult<Self>)
        ensures
            read_result_view(
                *old(r),
                *final(r),
                res,
                spec_read_gv80600(old(r).rest()),
                |x: Self| (
                    x.unknown_vec.0@,
                    (x.legend_quest_chapters.chapters.chapters@, x.legend_quest_chapters.unknown@, x.legend_quest_chapters.ids@),
                    x.uknown_short,
                    x.unknown_byte,
                ),
            ),
    {
        let ghost start = *old(r);
        let _ = r.remaining();
        let unknown_vec = LengthVec::<i32>::read(r, VecArgsLength::I16)?;
        proof {
            lemma_vec_reader_bounded::<i32>(VecArgsLength::I16);
            assert(vec_reader::<i32>(VecArgsLength::I16)(start.rest()) == spec_read_vec::<i32>(
                VecArgsLength::I16,
                start.rest(),
            ));
            Reader::lemma_rest_skip(start, *r);
        }
        let legend_quest_chapters = LegendQuest::read(r)?;
        proof {
            Reader::lemma_rest_skip(start, *r);
        }
        let ghost mid = *r;
        let (uknown_short, unknown_byte) = <(i16, i8)>::read(r)?;
        proof {
            <(i16, i8)>::lemma_read_bounds(mid.rest());
            Reader::lemma_rest_skip(start, *r);
        }
        let _80600 = read_marker(r, 80600)?;
        Ok(GV80600Block { unknown_vec, legend_quest_chapters, uknown_short, unknown_byte, _80600 })
    }

    pub fn write(&self, w: &mut Writer)
        ensures
            final(w).bytes() == old(w).bytes() + spec_write_vec::<i32>(VecArgsLength::I16, self.unknown_vec.0@)
                + spec_write_legend_quest(
                self.legend_quest_chapters.chapters.chapters@,
                self.legend_quest_chapters.unknown@,
                self.legend_quest_chapters.ids@,
            ) + (self.uknown_short, self.unknown_byte).spec_write() + 80600i32.spec_write(),
    {
        self.unknown_vec.write(w, VecArgsLength::I16);
        self.legend_quest_chapters.write(w);
        (self.uknown_short, self.unknown_byte).write(w);
        self._80600.write(w, 80600);
    }
}

} // verus!
