//! Edits of the main story: clearing a stage, a chapter or every chapter,
//! taken back by restoring the progress that was there before.

use vstd::prelude::*;
use crate::edits::{Edit, EditMemory};
use crate::game::main_story::{
    chapter_by_number, chapter_cleared, chapter_index, clears_view, cleared, grid_set,
    lemma_chapter_by_number, lemma_chapter_index, progress_after, ClearAllChaptersOptions, ClearChapterOptions,
    ClearStageOptions, ProgressType, StageId, StoryChapterType, StoryChapters, StoryStage,
};

verus! {

/// What an edit of the main story does.
#[derive(Debug, Clone, Copy)]
pub enum ClearStoryChapters {
    ClearStage(ClearStageOptions),
    ClearChapter(ClearChapterOptions),
    ClearAll(ClearAllChaptersOptions),
}

/// `after` is `before` with the clearing `op` done on it, as the clearing
/// operations of `StoryChapters` state it.
pub open spec fn cleared_as(before: StoryChapters, after: StoryChapters, op: ClearStoryChapters) -> bool {
    &&& after.selected_stages == before.selected_stages
    &&& after.treasures == before.treasures
    &&& match op {
        ClearStoryChapters::ClearStage(opts) => {
            &&& after.chapter_progress@ == progress_after(
                before.chapter_progress@,
                opts.stage,
                opts.progress_type,
            )
            &&& clears_view(after) == grid_set(
                clears_view(before),
                chapter_index(opts.stage.chapter),
                opts.stage.stage_id.id() as int,
                cleared(
                    clears_view(before)[chapter_index(opts.stage.chapter)][opts.stage.stage_id.id() as int],
                    opts.clear_amount,
                    opts.add_to_clears,
                ),
            )
        },
        ClearStoryChapters::ClearChapter(opts) => {
            &&& after.chapter_progress@ == before.chapter_progress@.update(chapter_index(opts.chapter), 48)
            &&& clears_view(after) == clears_view(before).update(
                chapter_index(opts.chapter),
                chapter_cleared(clears_view(before)[chapter_index(opts.chapter)], opts.clear_amount, opts.add_to_clears),
            )
        },
        ClearStoryChapters::ClearAll(opts) => {
            &&& forall|c: int|
                0 <= c < 10 ==> #[trigger] after.chapter_progress@[c] == if c == 3 {
                    before.chapter_progress@[c]
                } else {
                    48
                }
            &&& forall|c: int|
                0 <= c < 10 ==> #[trigger] clears_view(after)[c] == if c == 3 {
                    clears_view(before)[c]
                } else {
                    chapter_cleared(clears_view(before)[c], opts.clear_amount, opts.add_to_clears)
                }
        },
    }
}

/// A clearing of the main story, with the progress it replaces.
#[derive(Debug, Clone, Copy)]
pub struct StoryChaptersEdit(pub EditMemory<ClearStoryChapters, StoryChapters>);

impl StoryChaptersEdit {
    /// Does the clearing on the save's main story.
    pub fn apply(&self, chapters: &mut StoryChapters)
        ensures
            cleared_as(*old(chapters), *final(chapters), self.0.new),
    {
        match self.0.new {
            ClearStoryChapters::ClearStage(opts) => chapters.clear_stage(opts),
            ClearStoryChapters::ClearChapter(opts) => chapters.clear_chapter(opts),
            ClearStoryChapters::ClearAll(opts) => chapters.clear_all(opts),
        }
    }

    /// Puts back the progress that the edit replaced.
    pub fn revert(&self, chapters: &mut StoryChapters)
        ensures
            *final(chapters) == self.0.old,
    {
        *chapters = self.0.old;
    }
}

impl From<StoryChaptersEdit> for Edit {
    fn from(value: StoryChaptersEdit) -> (e: Edit) {
        Edit::MainStory(value)
    }
}

impl vstd::std_specs::convert::FromSpecImpl<StoryChaptersEdit> for Edit {
    open spec fn obeys_from_spec() -> bool {
        true
    }

    open spec fn from_spec(v: StoryChaptersEdit) -> Edit {
        Edit::MainStory(v)
    }
}


/* Clearing stages one by one, recording an edit for each */

/// Each edit, done on the story that its `old` holds, gives the story that
/// the next edit holds, and the last one gives `end`: the edits lead from
/// `start` to `end` in order.
pub open spec fn applied_in_order(start: StoryChapters, edits: Seq<StoryChaptersEdit>, end: StoryChapters) -> bool {
    &&& if edits.len() == 0 {
        end == start
    } else {
        edits[0].0.old == start
    }
    &&& forall|i: int|
        0 <= i < edits.len() ==> cleared_as(
            (#[trigger] edits[i]).0.old,
            if i + 1 < edits.len() {
                edits[i + 1].0.old
            } else {
                end
            },
            edits[i].0.new,
        )
}

/// `op` clears stage `t` of `chapter` with `amount`: the count is replaced,
/// and the progress only moves forward.
pub open spec fn is_stage_clear(op: ClearStoryChapters, chapter: StoryChapterType, t: int, amount: i32) -> bool {
    &&& op matches ClearStoryChapters::ClearStage(o)
    &&& o.stage.chapter == chapter
    &&& o.stage.stage_id.id() == t
    &&& o.clear_amount == amount
    &&& o.progress_type == ProgressType::OnlySetProgressIfLaterStage
    &&& !o.add_to_clears
}

/// The edits clear the stages `ids` of `chapter`, one each and in that order.
pub open spec fn clears_stages(edits: Seq<StoryChaptersEdit>, chapter: StoryChapterType, ids: Seq<int>, amount: i32) -> bool {
    &&& edits.len() == ids.len()
    &&& forall|i: int| 0 <= i < edits.len() ==> is_stage_clear((#[trigger] edits[i]).0.new, chapter, ids[i], amount)
}

/// The stages `0 <= t < hi` whose count in `row` is zero, from the first up.
pub open spec fn zero_stages_up(row: Seq<i32>, hi: int) -> Seq<int>
    decreases hi,
{
    if hi <= 0 {
        Seq::empty()
    } else {
        let s = zero_stages_up(row, hi - 1);
        if row[hi - 1] == 0 {
            s.push(hi - 1)
        } else {
            s
        }
    }
}

/// The stages `lo <= t < 49`, from the last down: every one (`every`), or
/// those whose count in `row` is not zero.
pub open spec fn stages_down(row: Seq<i32>, lo: int, every: bool) -> Seq<int>
    decreases 49 - lo,
{
    if lo >= 49 {
        Seq::empty()
    } else {
        let s = stages_down(row, lo + 1, every);
        if every || row[lo] != 0 {
            s.push(lo)
        } else {
            s
        }
    }
}

/// A chapter's progress after clearing the stages `ids` in turn, each
/// moving it forward only to a later stage.
pub open spec fn moved_past(p: i32, ids: Seq<int>) -> i32
    decreases ids.len(),
{
    if ids.len() == 0 {
        p
    } else {
        let q = moved_past(p, ids.drop_last());
        if ids.last() > q {
            ids.last() as i32
        } else {
            q
        }
    }
}

/// A row of clear counts with every zero count of the stages `0..=hi` set
/// to `amount`.
pub open spec fn zeros_filled(row: Seq<i32>, hi: int, amount: i32) -> Seq<i32> {
    Seq::new(row.len(), |t: int| if t <= hi && row[t] == 0 { amount } else { row[t] })
}

/// A row of clear counts with the stages `lo..49` set to zero.
pub open spec fn emptied_from(row: Seq<i32>, lo: int) -> Seq<i32> {
    Seq::new(row.len(), |t: int| if lo <= t < 49 { 0 } else { row[t] })
}

/// The clear counts of `stage`'s chapter.
pub open spec fn chapter_row(story: StoryChapters, stage: StoryStage) -> Seq<i32> {
    clears_view(story)[chapter_index(stage.chapter)]
}

/// The progress of `stage`'s chapter.
pub open spec fn chapter_progress_of(story: StoryChapters, stage: StoryStage) -> i32 {
    story.chapter_progress@[chapter_index(stage.chapter)]
}

proof fn lemma_in_order_push(
    start: StoryChapters,
    edits: Seq<StoryChaptersEdit>,
    mid: StoryChapters,
    e: StoryChaptersEdit,
    end: StoryChapters,
)
    requires
        applied_in_order(start, edits, mid),
        e.0.old == mid,
        cleared_as(mid, end, e.0.new),
    ensures
        applied_in_order(start, edits.push(e), end),
{
    let s = edits.push(e);
    assert forall|i: int| 0 <= i < s.len() implies cleared_as(
        (#[trigger] s[i]).0.old,
        if i + 1 < s.len() {
            s[i + 1].0.old
        } else {
            end
        },
        s[i].0.new,
    ) by {
        if i < edits.len() {
            assert(s[i] == edits[i]);
            if i + 1 < edits.len() {
                assert(s[i + 1] == edits[i + 1]);
            }
        }
    }
}

proof fn lemma_clears_stages_push(
    edits: Seq<StoryChaptersEdit>,
    chapter: StoryChapterType,
    ids: Seq<int>,
    amount: i32,
    e: StoryChaptersEdit,
    t: int,
)
    requires
        clears_stages(edits, chapter, ids, amount),
        is_stage_clear(e.0.new, chapter, t, amount),
    ensures
        clears_stages(edits.push(e), chapter, ids.push(t), amount),
{
    let s = edits.push(e);
    assert forall|i: int| 0 <= i < s.len() implies is_stage_clear(
        (#[trigger] s[i]).0.new,
        chapter,
        ids.push(t)[i],
        amount,
    ) by {
        if i < edits.len() {
            assert(s[i] == edits[i]);
        }
    }
}

proof fn lemma_moved_past_push(p: i32, ids: Seq<int>, t: int)
    ensures
        moved_past(p, ids.push(t)) == if t > moved_past(p, ids) {
            t as i32
        } else {
            moved_past(p, ids)
        },
{
    assert(ids.push(t).drop_last() =~= ids);
}

/// Clears stage `t` of `chapter` with `amount`, and records the edit with
/// the story it replaces.
fn clear_recorded(
    story: &mut StoryChapters,
    edits: &mut Vec<StoryChaptersEdit>,
    chapter: StoryChapterType,
    t: usize,
    amount: i32,
)
    requires
        t < 49,
    ensures
        final(edits)@ == old(edits)@.push(final(edits)@.last()),
        final(edits)@.last().0.old == *old(story),
        is_stage_clear(final(edits)@.last().0.new, chapter, t as int, amount),
        cleared_as(*old(story), *final(story), final(edits)@.last().0.new),
{
    let stage_id = StageId::new(t as u8).unwrap();
    let opts = ClearStageOptions {
        stage: StoryStage { chapter, stage_id },
        clear_amount: amount,
        progress_type: ProgressType::OnlySetProgressIfLaterStage,
        add_to_clears: false,
    };
    edits.push(StoryChaptersEdit(EditMemory::new(ClearStoryChapters::ClearStage(opts), *story)));
    story.clear_stage(opts);
    assert(edits@ =~= old(edits)@.push(edits@.last()));
}

/// Clears with `amount` every stage of `stage`'s chapter up to `stage`
/// whose count is zero, from the first up, recording an edit for each.
fn fill_zero_stages(story: &mut StoryChapters, edits: &mut Vec<StoryChaptersEdit>, stage: StoryStage, amount: i32)
    ensures
        applied_in_order(*old(story), final(edits)@.subrange(old(edits)@.len() as int, final(edits)@.len() as int), *final(story)),
        final(edits)@.subrange(0, old(edits)@.len() as int) == old(edits)@,
        clears_stages(
            final(edits)@.subrange(old(edits)@.len() as int, final(edits)@.len() as int),
            stage.chapter,
            zero_stages_up(chapter_row(*old(story), stage), stage.stage_id.id() + 1),
            amount,
        ),
        clears_view(*final(story)) == clears_view(*old(story)).update(
            chapter_index(stage.chapter),
            zeros_filled(chapter_row(*old(story), stage), stage.stage_id.id() as int, amount),
        ),
        final(story).chapter_progress@ == old(story).chapter_progress@.update(
            chapter_index(stage.chapter),
            moved_past(
                chapter_progress_of(*old(story), stage),
                zero_stages_up(chapter_row(*old(story), stage), stage.stage_id.id() + 1),
            ),
        ),
        final(story).selected_stages == old(story).selected_stages,
        final(story).treasures == old(story).treasures,
{
    let id: usize = stage.stage_id.into_usize();
    let ghost c = chapter_index(stage.chapter);
    let ghost start = *story;
    let ghost g0 = clears_view(start);
    let ghost row0 = g0[c];
    let ghost p0 = start.chapter_progress@;
    let ghost e0 = edits@;
    proof {
        lemma_chapter_index(stage.chapter, stage.chapter);
        assert(story.chapter_progress@ =~= p0.update(c, moved_past(p0[c], zero_stages_up(row0, 0))));
        assert(row0 =~= zeros_filled(row0, -1, amount));
        assert(clears_view(*story) =~= g0.update(c, zeros_filled(row0, -1, amount)));
        assert(edits@.subrange(e0.len() as int, edits@.len() as int) =~= Seq::<StoryChaptersEdit>::empty());
    }
    let mut t: usize = 0;
    while t <= id
        invariant
            id == stage.stage_id.id(),
            id < 49,
            t <= id + 1,
            c == chapter_index(stage.chapter),
            0 <= c < 10,
            start == *old(story),
            g0 == clears_view(start),
            row0 == g0[c],
            row0.len() == 51,
            p0 == start.chapter_progress@,
            p0.len() == 10,
            e0 == old(edits)@,
            edits@.subrange(0, e0.len() as int) == e0,
            e0.len() <= edits@.len(),
            applied_in_order(start, edits@.subrange(e0.len() as int, edits@.len() as int), *story),
            clears_stages(
                edits@.subrange(e0.len() as int, edits@.len() as int),
                stage.chapter,
                zero_stages_up(row0, t as int),
                amount,
            ),
            clears_view(*story) == g0.update(c, zeros_filled(row0, t - 1, amount)),
            story.chapter_progress@ == p0.update(c, moved_past(p0[c], zero_stages_up(row0, t as int))),
            story.selected_stages == start.selected_stages,
            story.treasures == start.treasures,
        decreases id + 1 - t,
    {
        let st = StoryStage { chapter: stage.chapter, stage_id: StageId::new(t as u8).unwrap() };
        let ghost before = *story;
        let ghost done = edits@.subrange(e0.len() as int, edits@.len() as int);
        if story.get_clear_amount(st) == 0 {
            clear_recorded(story, edits, stage.chapter, t, amount);
            proof {
                let e = edits@.last();
                assert(edits@.subrange(e0.len() as int, edits@.len() as int) =~= done.push(e));
                assert(edits@.subrange(0, e0.len() as int) =~= e0);
                lemma_in_order_push(start, done, before, e, *story);
                lemma_clears_stages_push(done, stage.chapter, zero_stages_up(row0, t as int), amount, e, t as int);
                lemma_moved_past_push(p0[c], zero_stages_up(row0, t as int), t as int);
                assert(zero_stages_up(row0, t + 1) == zero_stages_up(row0, t as int).push(t as int));
                assert(zeros_filled(row0, t - 1, amount).update(t as int, amount) =~= zeros_filled(
                    row0,
                    t as int,
                    amount,
                ));
                assert(clears_view(*story) =~= g0.update(c, zeros_filled(row0, t as int, amount)));
                assert(story.chapter_progress@ =~= p0.update(c, moved_past(p0[c], zero_stages_up(row0, t + 1))));
            }
        } else {
            proof {
                assert(zero_stages_up(row0, t + 1) == zero_stages_up(row0, t as int));
                assert(zeros_filled(row0, t - 1, amount) =~= zeros_filled(row0, t as int, amount));
            }
        }
        t = t + 1;
    }
}

/// Clears every stage of `stage`'s chapter from the first up to `stage`
/// that has not been cleared yet (its count is zero): its count becomes 1
/// and the progress moves forward to it. Returns one edit per stage, in
/// order, each holding the story it replaced.
pub fn clear_up_to(story: &mut StoryChapters, stage: StoryStage) -> (edits: Vec<StoryChaptersEdit>)
    ensures
        applied_in_order(*old(story), edits@, *final(story)),
        clears_stages(
            edits@,
            stage.chapter,
            zero_stages_up(chapter_row(*old(story), stage), stage.stage_id.id() + 1),
            1,
        ),
        clears_view(*final(story)) == clears_view(*old(story)).update(
            chapter_index(stage.chapter),
            zeros_filled(chapter_row(*old(story), stage), stage.stage_id.id() as int, 1),
        ),
        final(story).chapter_progress@ == old(story).chapter_progress@.update(
            chapter_index(stage.chapter),
            moved_past(
                chapter_progress_of(*old(story), stage),
                zero_stages_up(chapter_row(*old(story), stage), stage.stage_id.id() + 1),
            ),
        ),
        final(story).selected_stages == old(story).selected_stages,
        final(story).treasures == old(story).treasures,
{
    let mut edits: Vec<StoryChaptersEdit> = Vec::new();
    fill_zero_stages(story, &mut edits, stage, 1);
    assert(edits@.subrange(0, edits@.len() as int) =~= edits@);
    edits
}


proof fn lemma_every_stage_down(row: Seq<i32>, lo: int)
    requires
        0 <= lo <= 49,
    ensures
        stages_down(row, lo, true) == Seq::new((49 - lo) as nat, |i: int| 48 - i),
    decreases 49 - lo,
{
    if lo < 49 {
        lemma_every_stage_down(row, lo + 1);
        assert(stages_down(row, lo, true) =~= Seq::new((49 - lo) as nat, |i: int| 48 - i));
    } else {
        assert(stages_down(row, lo, true) =~= Seq::new((49 - lo) as nat, |i: int| 48 - i));
    }
}

proof fn lemma_moved_past_from_last(p: i32, n: nat)
    requires
        1 <= n <= 49,
    ensures
        moved_past(p, Seq::new(n, |i: int| 48 - i)) == if 48 > p {
            48
        } else {
            p
        },
    decreases n,
{
    let s = Seq::new(n, |i: int| 48 - i);
    assert(s.drop_last() =~= Seq::new((n - 1) as nat, |i: int| 48 - i));
    assert(s.last() == 49 - n);
    if n > 1 {
        lemma_moved_past_from_last(p, (n - 1) as nat);
    } else {
        assert(s.drop_last() =~= Seq::<int>::empty());
        assert(moved_past(p, Seq::<int>::empty()) == p);
    }
}

/// Sets to zero, from the last stage of `stage`'s chapter down to `stage`,
/// the clear count of every stage (`every`) or of those whose count is not
/// zero, recording an edit for each.
#[verifier::rlimit(40)]
fn empty_stages_down(story: &mut StoryChapters, stage: StoryStage, every: bool) -> (edits: Vec<StoryChaptersEdit>)
    ensures
        applied_in_order(*old(story), edits@, *final(story)),
        clears_stages(
            edits@,
            stage.chapter,
            stages_down(chapter_row(*old(story), stage), stage.stage_id.id() as int, every),
            0,
        ),
        clears_view(*final(story)) == clears_view(*old(story)).update(
            chapter_index(stage.chapter),
            emptied_from(chapter_row(*old(story), stage), stage.stage_id.id() as int),
        ),
        final(story).chapter_progress@ == old(story).chapter_progress@.update(
            chapter_index(stage.chapter),
            moved_past(
                chapter_progress_of(*old(story), stage),
                stages_down(chapter_row(*old(story), stage), stage.stage_id.id() as int, every),
            ),
        ),
        final(story).selected_stages == old(story).selected_stages,
        final(story).treasures == old(story).treasures,
{
    let id: usize = stage.stage_id.into_usize();
    let ghost c = chapter_index(stage.chapter);
    let ghost start = *story;
    let ghost g0 = clears_view(start);
    let ghost row0 = g0[c];
    let ghost p0 = start.chapter_progress@;
    let mut edits: Vec<StoryChaptersEdit> = Vec::new();
    proof {
        lemma_chapter_index(stage.chapter, stage.chapter);
        assert(story.chapter_progress@ =~= p0.update(c, moved_past(p0[c], stages_down(row0, 49, every))));
        assert(row0 =~= emptied_from(row0, 49));
        assert(clears_view(*story) =~= g0.update(c, emptied_from(row0, 49)));
    }
    let mut k: usize = 49;
    while k > id
        invariant
            id == stage.stage_id.id(),
            id < 49,
            id <= k <= 49,
            c == chapter_index(stage.chapter),
            0 <= c < 10,
            start == *old(story),
            g0 == clears_view(start),
            row0 == g0[c],
            row0.len() == 51,
            p0 == start.chapter_progress@,
            p0.len() == 10,
            applied_in_order(start, edits@, *story),
            clears_stages(edits@, stage.chapter, stages_down(row0, k as int, every), 0),
            clears_view(*story) == g0.update(c, emptied_from(row0, k as int)),
            story.chapter_progress@ == p0.update(c, moved_past(p0[c], stages_down(row0, k as int, every))),
            story.selected_stages == start.selected_stages,
            story.treasures == start.treasures,
        decreases k,
    {
        k = k - 1;
        let st = StoryStage { chapter: stage.chapter, stage_id: StageId::new(k as u8).unwrap() };
        let ghost before = *story;
        let ghost done = edits@;
        if every || story.get_clear_amount(st) != 0 {
            clear_recorded(story, &mut edits, stage.chapter, k, 0);
            proof {
                let e = edits@.last();
                lemma_in_order_push(start, done, before, e, *story);
                lemma_clears_stages_push(done, stage.chapter, stages_down(row0, k + 1, every), 0, e, k as int);
                lemma_moved_past_push(p0[c], stages_down(row0, k + 1, every), k as int);
                assert(stages_down(row0, k as int, every) == stages_down(row0, k + 1, every).push(k as int));
                assert(emptied_from(row0, k + 1).update(k as int, 0) =~= emptied_from(row0, k as int));
                assert(clears_view(*story) =~= g0.update(c, emptied_from(row0, k as int)));
                assert(story.chapter_progress@ =~= p0.update(c, moved_past(p0[c], stages_down(row0, k as int, every))));
            }
        } else {
            proof {
                assert(stages_down(row0, k as int, every) == stages_down(row0, k + 1, every));
                assert(emptied_from(row0, k + 1) =~= emptied_from(row0, k as int));
            }
        }
    }
    edits
}

/// Un-clears every stage of `stage`'s chapter from the last one down to
/// `stage`, in that order: each count becomes zero. Each stage is cleared
/// with a count of zero, which moves the progress forward as clearing does,
/// so the chapter's progress ends at the last stage or beyond. Returns one
/// edit per stage, in order, each holding the story it replaced.
pub fn unclear_down_to(story: &mut StoryChapters, stage: StoryStage) -> (edits: Vec<StoryChaptersEdit>)
    ensures
        applied_in_order(*old(story), edits@, *final(story)),
        clears_stages(edits@, stage.chapter, Seq::new((49 - stage.stage_id.id()) as nat, |i: int| 48 - i), 0),
        clears_view(*final(story)) == clears_view(*old(story)).update(
            chapter_index(stage.chapter),
            emptied_from(chapter_row(*old(story), stage), stage.stage_id.id() as int),
        ),
        final(story).chapter_progress@ == old(story).chapter_progress@.update(
            chapter_index(stage.chapter),
            if 48 > chapter_progress_of(*old(story), stage) {
                48
            } else {
                chapter_progress_of(*old(story), stage)
            },
        ),
        final(story).selected_stages == old(story).selected_stages,
        final(story).treasures == old(story).treasures,
{
    let ghost row0 = chapter_row(*story, stage);
    let ghost p = chapter_progress_of(*story, stage);
    let id: usize = stage.stage_id.into_usize();
    let edits = empty_stages_down(story, stage, true);
    proof {
        lemma_every_stage_down(row0, id as int);
        lemma_moved_past_from_last(p, (49 - id) as nat);
    }
    edits
}

/// The stages that setting `stage`'s count to `amount` clears before it:
/// the uncleared ones up to it, from the first up, for a count other than
/// zero; the cleared ones from the last down to it, for zero.
pub open spec fn stages_before_set(row: Seq<i32>, id: int, amount: i32) -> Seq<int> {
    if amount != 0 {
        zero_stages_up(row, id + 1)
    } else {
        stages_down(row, id, false)
    }
}

/// The row of clear counts after setting stage `id`'s count to `amount`.
pub open spec fn row_after_set(row: Seq<i32>, id: int, amount: i32) -> Seq<i32> {
    if amount != 0 {
        zeros_filled(row, id, amount).update(id, amount)
    } else {
        emptied_from(row, id)
    }
}

/// Sets how often `stage` was cleared. A count other than zero first clears
/// with it every stage before that has not been cleared; zero first
/// un-clears every later stage that has been cleared. Then the stage itself
/// gets the count, and the progress moves forward to it. Returns one edit
/// per stage, in order, each holding the story it replaced.
pub fn set_stage_clears(story: &mut StoryChapters, stage: StoryStage, amount: i32) -> (edits: Vec<StoryChaptersEdit>)
    ensures
        applied_in_order(*old(story), edits@, *final(story)),
        clears_stages(
            edits@,
            stage.chapter,
            stages_before_set(chapter_row(*old(story), stage), stage.stage_id.id() as int, amount).push(
                stage.stage_id.id() as int,
            ),
            amount,
        ),
        clears_view(*final(story)) == clears_view(*old(story)).update(
            chapter_index(stage.chapter),
            row_after_set(chapter_row(*old(story), stage), stage.stage_id.id() as int, amount),
        ),
        final(story).chapter_progress@ == old(story).chapter_progress@.update(
            chapter_index(stage.chapter),
            moved_past(
                chapter_progress_of(*old(story), stage),
                stages_before_set(chapter_row(*old(story), stage), stage.stage_id.id() as int, amount).push(
                    stage.stage_id.id() as int,
                ),
            ),
        ),
        final(story).selected_stages == old(story).selected_stages,
        final(story).treasures == old(story).treasures,
{
    let ghost start = *story;
    let ghost c = chapter_index(stage.chapter);
    let ghost row0 = chapter_row(*story, stage);
    let ghost p0 = story.chapter_progress@;
    let id: usize = stage.stage_id.into_usize();
    let mut edits: Vec<StoryChaptersEdit> = if amount != 0 {
        let mut e: Vec<StoryChaptersEdit> = Vec::new();
        fill_zero_stages(story, &mut e, stage, amount);
        assert(e@.subrange(0, e@.len() as int) =~= e@);
        e
    } else {
        empty_stages_down(story, stage, false)
    };
    let ghost ids = stages_before_set(row0, id as int, amount);
    let ghost mid = *story;
    let ghost done = edits@;
    proof {
        lemma_chapter_index(stage.chapter, stage.chapter);
    }
    clear_recorded(story, &mut edits, stage.chapter, id, amount);
    proof {
        let e = edits@.last();
        lemma_in_order_push(start, done, mid, e, *story);
        lemma_clears_stages_push(done, stage.chapter, ids, amount, e, id as int);
        lemma_moved_past_push(p0[c], ids, id as int);
        assert(row_after_set(row0, id as int, amount) =~= (if amount != 0 {
            zeros_filled(row0, id as int, amount)
        } else {
            emptied_from(row0, id as int)
        }).update(id as int, amount));
        assert(clears_view(*story) =~= clears_view(start).update(c, row_after_set(row0, id as int, amount)));
        assert(story.chapter_progress@ =~= p0.update(c, moved_past(p0[c], ids.push(id as int))));
    }
    edits
}

/// The chapter numbers below `n` that `selected` marks, in order.
pub open spec fn picked(selected: Seq<bool>, n: int) -> Seq<int>
    decreases n,
{
    if n <= 0 {
        Seq::empty()
    } else {
        let s = picked(selected, n - 1);
        if selected[n - 1] {
            s.push(n - 1)
        } else {
            s
        }
    }
}

/// The number, in story order, of the chapter in slot `x` of the save.
pub open spec fn slot_number(x: int) -> int {
    if x < 3 {
        x
    } else {
        x - 1
    }
}

/// Slot `x` holds a chapter that `selected` marks.
pub open spec fn slot_picked(selected: Seq<bool>, x: int) -> bool {
    x != 3 && selected[slot_number(x)]
}

/// The clearing of chapter number `j` with `amount`, replacing the counts.
pub open spec fn chapter_clear_op(j: int, amount: i32) -> ClearStoryChapters {
    ClearStoryChapters::ClearChapter(
        ClearChapterOptions { chapter: chapter_by_number(j)->0, clear_amount: amount, add_to_clears: false },
    )
}

/// Each edit holds the story that its own clearing left: done in turn from
/// `start`, the clearings give those stories, and the last gives `end`.
pub open spec fn applied_recording_after(start: StoryChapters, edits: Seq<StoryChaptersEdit>, end: StoryChapters) -> bool {
    &&& end == if edits.len() == 0 {
        start
    } else {
        edits.last().0.old
    }
    &&& forall|i: int|
        0 <= i < edits.len() ==> cleared_as(
            if i == 0 {
                start
            } else {
                edits[i - 1].0.old
            },
            (#[trigger] edits[i]).0.old,
            edits[i].0.new,
        )
}

#[verifier::rlimit(40)]
proof fn lemma_recording_after_push(
    start: StoryChapters,
    edits: Seq<StoryChaptersEdit>,
    mid: StoryChapters,
    e: StoryChaptersEdit,
    end: StoryChapters,
)
    requires
        applied_recording_after(start, edits, mid),
        cleared_as(mid, end, e.0.new),
        e.0.old == end,
    ensures
        applied_recording_after(start, edits.push(e), end),
{
    let s = edits.push(e);
    assert forall|i: int| 0 <= i < s.len() implies cleared_as(
        if i == 0 {
            start
        } else {
            s[i - 1].0.old
        },
        (#[trigger] s[i]).0.old,
        s[i].0.new,
    ) by {
        if i < edits.len() {
            assert(s[i] == edits[i]);
        }
        if 0 < i <= edits.len() {
            assert(s[i - 1] == edits[i - 1]);
        }
    }
}

/// Clears, in story order, each chapter that `selected` marks (by its
/// number, from 0), setting every stage's count to `amount` and the
/// chapter's progress to its last stage. Returns one edit per chapter, in
/// order; each holds the story as its own clearing left it.
#[verifier::rlimit(40)]
pub fn clear_selected_chapters(story: &mut StoryChapters, selected: [bool; 9], amount: i32) -> (edits: Vec<
    StoryChaptersEdit,
>)
    ensures
        applied_recording_after(*old(story), edits@, *final(story)),
        edits@.len() == picked(selected@, 9).len(),
        forall|i: int|
            0 <= i < edits@.len() ==> (#[trigger] edits@[i]).0.new == chapter_clear_op(picked(selected@, 9)[i], amount),
        forall|x: int|
            0 <= x < 10 ==> #[trigger] final(story).chapter_progress@[x] == if slot_picked(selected@, x) {
                48
            } else {
                old(story).chapter_progress@[x]
            },
        forall|x: int|
            0 <= x < 10 ==> #[trigger] clears_view(*final(story))[x] == if slot_picked(selected@, x) {
                chapter_cleared(clears_view(*old(story))[x], amount, false)
            } else {
                clears_view(*old(story))[x]
            },
        final(story).selected_stages == old(story).selected_stages,
        final(story).treasures == old(story).treasures,
{
    let ghost start = *story;
    let ghost p0 = story.chapter_progress@;
    let ghost g0 = clears_view(*story);
    let mut edits: Vec<StoryChaptersEdit> = Vec::new();
    let mut i: usize = 0;
    while i < 9
        invariant
            i <= 9,
            start == *old(story),
            p0 == start.chapter_progress@,
            g0 == clears_view(start),
            p0.len() == 10,
            g0.len() == 10,
            story.chapter_progress@.len() == 10,
            clears_view(*story).len() == 10,
            applied_recording_after(start, edits@, *story),
            edits@.len() == picked(selected@, i as int).len(),
            forall|j: int|
                0 <= j < edits@.len() ==> (#[trigger] edits@[j]).0.new == chapter_clear_op(
                    picked(selected@, i as int)[j],
                    amount,
                ),
            forall|x: int|
                0 <= x < 10 ==> #[trigger] story.chapter_progress@[x] == if slot_picked(selected@, x) && slot_number(x)
                    < i {
                    48
                } else {
                    p0[x]
                },
            forall|x: int|
                0 <= x < 10 ==> #[trigger] clears_view(*story)[x] == if slot_picked(selected@, x) && slot_number(x)
                    < i {
                    chapter_cleared(g0[x], amount, false)
                } else {
                    g0[x]
                },
            story.selected_stages == start.selected_stages,
            story.treasures == start.treasures,
        decreases 9 - i,
    {
        let ghost before = *story;
        let ghost done = edits@;
        if selected[i] {
            proof {
                lemma_chapter_by_number(i as int);
            }
            let chapter = StoryChapterType::from_usize_human(i).unwrap();
            let opts = ClearChapterOptions { chapter, clear_amount: amount, add_to_clears: false };
            story.clear_chapter(opts);
            edits.push(StoryChaptersEdit(EditMemory::new(ClearStoryChapters::ClearChapter(opts), *story)));
            proof {
                let e = edits@.last();
                assert(edits@ == done.push(e));
                lemma_recording_after_push(start, done, before, e, *story);
                assert(picked(selected@, i + 1) == picked(selected@, i as int).push(i as int));
                assert forall|j: int| 0 <= j < edits@.len() implies (#[trigger] edits@[j]).0.new
                    == chapter_clear_op(picked(selected@, i + 1)[j], amount) by {
                    if j < done.len() {
                        assert(edits@[j] == done[j]);
                    }
                }
            }
        } else {
            proof {
                assert(picked(selected@, i + 1) == picked(selected@, i as int));
            }
        }
        i = i + 1;
    }
    edits
}

} // verus!
