use bcsfe::country_code::CountryCode;
use bcsfe::game::main_story::{
    ClearStageOptions, InnerChapterType, ProgressType, StageId, StoryChapterType,
    StoryChapterTypeOuter, StoryChapters, StoryStage, TreasureValue,
};
use bcsfe::game_version::GameVersion;
use bcsfe::save::fields::{get_total_cats_from_gv, UnlockedSlots};
use bcsfe::save::GVCC;
use bcsfe::stream::{Readable, Reader, Writable, Writer};

fn stage(chapter: StoryChapterType, id: u8) -> StoryStage {
    StoryStage { chapter, stage_id: StageId::new(id).unwrap() }
}

#[test]
fn stage_ids() {
    assert!(StageId::new(48).is_some());
    assert!(StageId::new(49).is_none());
    assert_eq!(StageId::from_str("12").ok().map(|s| s.into_usize()), Some(11));
    assert_eq!(StageId::from_str("49").ok().map(|s| s.into_usize()), Some(48));
    assert_eq!(StageId::from_str("0").ok().map(|s| s.into_usize()), Some(0));
    assert_eq!(StageId::from_str("50").err(), Some("invalid stage id".to_string()));
    assert_eq!(StageId::from_str("").err(), Some("cannot parse integer from empty string".to_string()));
    assert_eq!(StageId::from_str("300").err(), Some("number too large to fit in target type".to_string()));
    assert_eq!(StageId::from_str("x").err(), Some("invalid digit found in string".to_string()));
}

#[test]
fn chapter_numbers() {
    assert_eq!(StoryChapterType::from_usize_human(0), Some(StoryChapterType::Eoc(InnerChapterType::First)));
    assert_eq!(StoryChapterType::from_usize_human(3), Some(StoryChapterType::Itf(InnerChapterType::First)));
    assert_eq!(StoryChapterType::from_usize_human(8), Some(StoryChapterType::Cotc(InnerChapterType::Third)));
    assert_eq!(StoryChapterType::from_usize_human(9), None);
    assert_eq!(StoryChapterType::all().len(), 9);
    assert!(StoryChapterTypeOuter::from_str("itf").is_ok());
    assert_eq!(InnerChapterType::from_str("second").ok(), Some(InnerChapterType::Second));
    assert!(InnerChapterType::from_str("2").is_err());
}

#[test]
fn progress_and_clears() {
    let mut s = StoryChapters::default();
    let cotc1 = StoryChapterType::Cotc(InnerChapterType::First);
    // The unused slot: Cotc chapters come after it.
    let st = stage(cotc1, 10);
    assert!(s.add_chapter_progress(st));
    assert_eq!(s.chapter_progress[7], 10);
    assert!(!s.add_chapter_progress(stage(cotc1, 3)));
    assert_eq!(s.get_chapter_progress(st), 10);
    s.set_chapter_progress(stage(cotc1, 3));
    assert_eq!(s.chapter_progress[7], 3);

    s.set_clear_amount(st, 5);
    s.add_clear_amount(st, 2);
    assert_eq!(s.get_clear_amount(st), 7);
    s.set_clear_amount(st, i32::MAX);
    s.add_clear_amount(st, 10);
    assert_eq!(s.get_clear_amount(st), i32::MAX);

    s.set_treasure(st, TreasureValue::Superior);
    assert_eq!(s.treasures[7][10], 3);
    s.set_treasure(st, TreasureValue::Custom(-4));
    assert_eq!(s.treasures[7][10], -4);
}

#[test]
fn clear_stage_progress_types() {
    let mut s = StoryChapters::default();
    let eoc1 = StoryChapterType::Eoc(InnerChapterType::First);
    let opts = ClearStageOptions::default().with_stage(stage(eoc1, 20)).with_add_to_clears(true);
    s.clear_stage(opts);
    s.clear_stage(opts);
    assert_eq!(s.clear_times[0][20], 2);
    assert_eq!(s.chapter_progress[0], 20);
    s.clear_stage(ClearStageOptions::default().with_stage(stage(eoc1, 5)));
    assert_eq!(s.chapter_progress[0], 20);
    s.clear_stage(
        ClearStageOptions::default()
            .with_stage(stage(eoc1, 5))
            .with_progress_type(ProgressType::AlwaysSetProgress),
    );
    assert_eq!(s.chapter_progress[0], 5);
}

#[test]
fn story_chapters_bytes_roundtrip() {
    let mut s = StoryChapters::default();
    s.clear_times[2][3] = 9;
    s.treasures[8][48] = 1;
    let mut w = Writer::new();
    s.write(&mut w);
    let bytes = w.into_bytes();
    assert_eq!(bytes.len(), 4 * (10 + 10 + 10 * 51 + 10 * 49));
    let back = StoryChapters::read(&mut Reader::new(bytes)).ok().unwrap();
    assert_eq!(back.clear_times, s.clear_times);
    assert_eq!(back.treasures, s.treasures);
}

#[test]
fn unlocked_slots_by_version() {
    let old = GVCC { cc: CountryCode::Jp, gv: GameVersion(90600) };
    let new = GVCC { cc: CountryCode::Jp, gv: GameVersion(90700) };
    let mut w = Writer::new();
    UnlockedSlots::One(3).write(&mut w, old);
    assert_eq!(w.into_bytes(), vec![1, 1, 1, 0, 0, 0, 0, 0, 0, 0]);
    let mut w = Writer::new();
    let mut flags = [false; 10];
    flags[1] = true;
    flags[7] = true;
    UnlockedSlots::Individual(flags).write(&mut w, new);
    assert_eq!(w.into_bytes(), vec![2]);
    match UnlockedSlots::read(&mut Reader::new(vec![4]), new).ok() {
        Some(UnlockedSlots::One(n)) => assert_eq!(n, 4),
        _ => panic!("expected a count"),
    }
}

#[test]
fn total_cats() {
    assert_eq!(get_total_cats_from_gv(GameVersion(1)), Some(88));
    assert_eq!(get_total_cats_from_gv(GameVersion(3)), Some(122));
    assert_eq!(get_total_cats_from_gv(GameVersion(24)), Some(249));
    assert_eq!(get_total_cats_from_gv(GameVersion(140000)), None);
}
