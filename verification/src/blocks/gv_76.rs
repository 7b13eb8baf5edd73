//! Uncanny legends: chapters in the 32-bit generic layout, and one number per
//! chapter.

use vstd::prelude::*;
use crate::save::chapters::{
    ChaptersGeneric, GenericChapterArgs, LengthType, StageRecord, chapters_view, spec_read_chapters,
    spec_write_chapters, ChaptersView, TotalStages,
};
use crate::stream::{Reader, StreamResult, Writer, Readable, Writable};
use crate::stream::compound::Assertable;
use crate::blocks::marker::{read_marker, spec_read_marker};
use crate::stream::lists::{
    always_writable, read_result_view, read_vec, spec_read_vec, spec_write_vec, write_vec, VecArgs,
    VecArgsLength, vec_view, lemma_vec_reader_bounded, vec_reader, vec2_view,
};

verus! {

pub type UncannyView = ChaptersView<i32, i32, Seq<Seq<i32>>, i32>;

/// The layout of uncanny chapters: all counts 32-bit, given once.
pub open spec fn uncanny_args() -> GenericChapterArgs {
    GenericChapterArgs {
        read_length_every_time: false,
        total_chapters_type: LengthType::I32,
        total_stages_type: LengthType::I32,
        total_stars_type: LengthType::I32,
    }
}

/// Chapters, then one number per chapter.
#[derive(Debug, Clone)]
pub struct UncannyChapters {
    pub chapters: ChaptersGeneric<i32, i32, Vec<Vec<i32>>, i32>,
    pub unknown: Vec<i32>,
}

pub open spec fn spec_read_uncanny(bytes: Seq<u8>) -> Option<((UncannyView, Seq<i32>), int)> {
    match spec_read_chapters::<i32, i32, Vec<Vec<i32>>, i32>(uncanny_args(), bytes) {
        Some((c, k1)) => match spec_read_vec::<i32>(VecArgsLength::Fixed(c.0.len() as usize), bytes.skip(k1)) {
            Some((u, k2)) => Some(((c, u), k1 + k2)),
            None => None,
        },
        None => None,
    }
}

pub open spec fn spec_write_uncanny(c: UncannyView, u: Seq<i32>) -> Seq<u8> {
    spec_write_chapters::<i32, i32, Vec<Vec<i32>>, i32>(uncanny_args(), c) + spec_write_vec::<i32>(
        VecArgsLength::Fixed(c.0.len() as usize),
        u,
    )
}

impl UncannyChapters {
    pub fn read(r: &mut Reader) -> (res: StreamResult<Self>)
        ensures
            read_result_view(*old(r), *final(r), res, spec_read_uncanny(old(r).rest()), |x: Self| (x.chapters@, x.unknown@)),
            res is Ok ==> old(r).position() <= final(r).position(),
    {
        let ghost start = *old(r);
        let _ = r.remaining();
        let chapters = ChaptersGeneric::<i32, i32, Vec<Vec<i32>>, i32>::read(r, GenericChapterArgs::new_int(false))?;
        proof {
            Reader::lemma_rest_skip(start, *r);
        }
        let len = chapters.selected_stages.len();
        let ghost mid = *r;
        let unknown = read_vec::<i32>(r, VecArgs::new_empty_fixed(len))?;
        proof {
            lemma_vec_reader_bounded::<i32>(VecArgsLength::Fixed(len));
            assert(vec_reader::<i32>(VecArgsLength::Fixed(len))(mid.rest()) == spec_read_vec::<i32>(
                VecArgsLength::Fixed(len),
                mid.rest(),
            ));
        }
        Ok(UncannyChapters { chapters, unknown })
    }

    pub fn write(&self, w: &mut Writer)
        ensures
            final(w).bytes() == old(w).bytes() + spec_write_uncanny(self.chapters@, self.unknown@),
    {
        assert forall|i: int| 0 <= i < self.chapters.stages@.len() implies #[trigger] <Vec<Vec<i32>> as StageRecord>::writable(
            self.chapters.stages@[i].model(),
        ) by {}
        self.chapters.write(w, GenericChapterArgs::new_int(false));
        write_vec::<i32>(w, self.unknown.as_slice(), VecArgs::new_empty_fixed(self.chapters.selected_stages.len()));
        assert(w.bytes() =~= old(w).bytes() + spec_write_uncanny(self.chapters@, self.unknown@));
    }
}

/// Uncanny legends, then the marker 76.
#[derive(Debug, Clone)]
pub struct GV76Block {
    pub uncanny_chapters: UncannyChapters,
    pub _76: Assertable,
}

impl GV76Block {
    pub fn read(r: &mut Reader) -> (res: StreamResult<Self>)
        ensures
            read_result_view(
                *old(r),
                *final(r),
                res,
                match spec_read_uncanny(old(r).rest()) {
                    Some((u, k1)) => match spec_read_marker(76, old(r).rest().skip(k1)) {
                        Some(k2) => Some((u, k1 + k2)),
                        None => None,
                    },
                    None => None,
                },
                |x: Self| (x.uncanny_chapters.chapters@, x.uncanny_chapters.unknown@),
            ),
    {
        let ghost start = *old(r);
        let _ = r.remaining();
        let uncanny_chapters = UncannyChapters::read(r)?;
        proof {
            Reader::lemma_rest_skip(start, *r);
        }
        let _76 = read_marker(r, 76)?;
        Ok(GV76Block { uncanny_chapters, _76 })
    }

    pub fn write(&self, w: &mut Writer)
        ensures
            final(w).bytes() == old(w).bytes() + spec_write_uncanny(
                self.uncanny_chapters.chapters@,
                self.uncanny_chapters.unknown@,
            ) + 76i32.spec_write(),
    {
        self.uncanny_chapters.write(w);
        self._76.write(w, 76);
    }
}

} // verus!
