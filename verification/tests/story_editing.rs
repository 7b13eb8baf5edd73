use bcsfe::edits::main_story::{
    clear_selected_chapters, clear_up_to, set_stage_clears, unclear_down_to, ClearStoryChapters,
    StoryChaptersEdit,
};
use bcsfe::game::main_story::{InnerChapterType, StageId, StoryChapterType, StoryChapters, StoryStage};

fn stage(chapter: StoryChapterType, id: u8) -> StoryStage {
    StoryStage { chapter, stage_id: StageId::new(id).unwrap() }
}

/// The slot of a chapter in the save; slot 3 is unused.
fn slot(c: StoryChapterType) -> usize {
    let (base, inner) = match c {
        StoryChapterType::Eoc(i) => (0, i),
        StoryChapterType::Itf(i) => (4, i),
        StoryChapterType::Cotc(i) => (7, i),
    };
    base + match inner {
        InnerChapterType::First => 0,
        InnerChapterType::Second => 1,
        InnerChapterType::Third => 2,
    }
}

/// The chapter slots, stage ids and amounts that the edits clear, in order.
fn cleared_stages(edits: &[StoryChaptersEdit]) -> Vec<(usize, usize, i32)> {
    edits
        .iter()
        .map(|e| match e.0.new {
            ClearStoryChapters::ClearStage(o) => {
                (slot(o.stage.chapter), o.stage.stage_id.into_usize(), o.clear_amount)
            }
            _ => panic!("not a stage clearing"),
        })
        .collect()
}

/// Applies the edits in order to `start`, checking that each holds the
/// story it was made on, and returns the result.
fn replay(start: StoryChapters, edits: &[StoryChaptersEdit]) -> StoryChapters {
    let mut s = start;
    for e in edits {
        assert_eq!(e.0.old.clear_times, s.clear_times);
        assert_eq!(e.0.old.chapter_progress, s.chapter_progress);
        e.apply(&mut s);
    }
    s
}

#[test]
fn clear_up_to_clears_only_uncleared_stages() {
    let itf2 = StoryChapterType::Itf(InnerChapterType::Second);
    let mut s = StoryChapters::default();
    s.set_clear_amount(stage(itf2, 1), 7);
    s.set_chapter_progress(stage(itf2, 2));
    let start = s;
    let edits = clear_up_to(&mut s, stage(itf2, 3));
    // slot 5 holds the second chapter of Into the Future
    assert_eq!(cleared_stages(&edits), vec![(5, 0, 1), (5, 2, 1), (5, 3, 1)]);
    assert_eq!(&s.clear_times[5][..5], &[1, 7, 1, 1, 0]);
    assert_eq!(s.chapter_progress[5], 3);
    assert_eq!(s.clear_times[4], start.clear_times[4]);
    let replayed = replay(start, &edits);
    assert_eq!(replayed.clear_times, s.clear_times);
    assert_eq!(replayed.chapter_progress, s.chapter_progress);
    // reverting the first edit gives back the story before
    let mut back = s;
    edits[0].revert(&mut back);
    assert_eq!(back.clear_times, start.clear_times);
    assert_eq!(back.chapter_progress, start.chapter_progress);
}

#[test]
fn clear_up_to_with_everything_cleared_does_nothing() {
    let eoc1 = StoryChapterType::Eoc(InnerChapterType::First);
    let mut s = StoryChapters::default();
    s.set_clear_amount(stage(eoc1, 0), 2);
    let start = s;
    let edits = clear_up_to(&mut s, stage(eoc1, 0));
    assert!(edits.is_empty());
    assert_eq!(s.clear_times, start.clear_times);
    assert_eq!(s.chapter_progress, start.chapter_progress);
}

#[test]
fn unclear_down_to_goes_from_the_last_stage() {
    let cotc3 = StoryChapterType::Cotc(InnerChapterType::Third);
    let mut s = StoryChapters::default();
    s.set_clear_amount(stage(cotc3, 44), 3);
    s.set_clear_amount(stage(cotc3, 46), 1);
    s.set_clear_amount(stage(cotc3, 40), 9);
    let start = s;
    let edits = unclear_down_to(&mut s, stage(cotc3, 45));
    assert_eq!(cleared_stages(&edits), vec![(9, 48, 0), (9, 47, 0), (9, 46, 0), (9, 45, 0)]);
    assert_eq!(s.clear_times[9][46], 0);
    assert_eq!(s.clear_times[9][44], 3);
    assert_eq!(s.clear_times[9][40], 9);
    // each un-clearing moves the progress forward, as clearing does
    assert_eq!(s.chapter_progress[9], 48);
    let replayed = replay(start, &edits);
    assert_eq!(replayed.clear_times, s.clear_times);
    assert_eq!(replayed.chapter_progress, s.chapter_progress);
}

#[test]
fn set_stage_clears_fills_earlier_stages() {
    let eoc3 = StoryChapterType::Eoc(InnerChapterType::Third);
    let mut s = StoryChapters::default();
    s.set_clear_amount(stage(eoc3, 1), 4);
    s.set_clear_amount(stage(eoc3, 2), 6);
    let start = s;
    let edits = set_stage_clears(&mut s, stage(eoc3, 2), 5);
    assert_eq!(cleared_stages(&edits), vec![(2, 0, 5), (2, 2, 5)]);
    assert_eq!(&s.clear_times[2][..4], &[5, 4, 5, 0]);
    assert_eq!(s.chapter_progress[2], 2);
    let replayed = replay(start, &edits);
    assert_eq!(replayed.clear_times, s.clear_times);
}

#[test]
fn set_stage_clears_to_zero_unclears_later_stages() {
    let itf1 = StoryChapterType::Itf(InnerChapterType::First);
    let mut s = StoryChapters::default();
    s.set_clear_amount(stage(itf1, 10), 2);
    s.set_clear_amount(stage(itf1, 12), 2);
    s.set_clear_amount(stage(itf1, 9), 2);
    s.set_chapter_progress(stage(itf1, 5));
    let start = s;
    let edits = set_stage_clears(&mut s, stage(itf1, 10), 0);
    assert_eq!(cleared_stages(&edits), vec![(4, 12, 0), (4, 10, 0), (4, 10, 0)]);
    assert_eq!(s.clear_times[4][12], 0);
    assert_eq!(s.clear_times[4][10], 0);
    assert_eq!(s.clear_times[4][9], 2);
    assert_eq!(s.chapter_progress[4], 12);
    let replayed = replay(start, &edits);
    assert_eq!(replayed.clear_times, s.clear_times);
    assert_eq!(replayed.chapter_progress, s.chapter_progress);
}

#[test]
fn clear_selected_chapters_in_story_order() {
    let mut s = StoryChapters::default();
    let mut selected = [false; 9];
    selected[1] = true;
    selected[3] = true;
    let start = s;
    let edits = clear_selected_chapters(&mut s, selected, 2);
    assert_eq!(edits.len(), 2);
    match edits[0].0.new {
        ClearStoryChapters::ClearChapter(o) => {
            assert_eq!(o.chapter, StoryChapterType::Eoc(InnerChapterType::Second));
            assert_eq!(o.clear_amount, 2);
        }
        _ => panic!("not a chapter clearing"),
    }
    match edits[1].0.new {
        ClearStoryChapters::ClearChapter(o) => {
            assert_eq!(o.chapter, StoryChapterType::Itf(InnerChapterType::First))
        }
        _ => panic!("not a chapter clearing"),
    }
    // slots 1 and 4; slot 3 is unused
    assert!(s.clear_times[1][..49].iter().all(|c| *c == 2));
    assert!(s.clear_times[4][..49].iter().all(|c| *c == 2));
    assert_eq!(s.clear_times[1][49], 0);
    assert_eq!(s.clear_times[3], start.clear_times[3]);
    assert_eq!(s.clear_times[0], start.clear_times[0]);
    assert_eq!(s.chapter_progress, [0, 48, 0, 0, 48, 0, 0, 0, 0, 0]);
    // each edit holds the story as its own clearing left it
    assert_eq!(edits[1].0.old.clear_times, s.clear_times);
    assert_eq!(edits[0].0.old.chapter_progress, [0, 48, 0, 0, 0, 0, 0, 0, 0, 0]);
}
