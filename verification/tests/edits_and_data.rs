use bcsfe::country_code::CountryCode;
use bcsfe::edits::basic_items::{CatfoodEdit, InquiryCodeEdit};
use bcsfe::edits::main_story::{ClearStoryChapters, StoryChaptersEdit};
use bcsfe::edits::{Edit, EditMemory};
use bcsfe::game::main_story::{
    ClearAllChaptersOptions, ClearChapterOptions, ClearStageOptions, InnerChapterType,
    StageId, StoryChapterType, StoryChapters, StoryStage,
};
use bcsfe::game_data::{lang_pack_name, GameRepoMetadata};
use bcsfe::game_version::{parse_i32, GameVersion, IntErrorKind};
use bcsfe::text::{decimal_string, i32_decimal_string, lower_hex_string};
use bcsfe::ui::app::UIType;
use bcsfe::ui::editview::{BasicItemError, BasicItemFeature, BasicItemView};

#[test]
fn edit_memory_new_init_same_swap() {
    let e = EditMemory::new(5, 3);
    assert_eq!(e.new, 5);
    assert_eq!(e.old, 3);
    let s = e.swap();
    assert_eq!((s.new, s.old), (3, 5));
    assert_eq!(s.swap(), e);
    let same: EditMemory<i32, i32> = EditMemory::init_same(7);
    assert_eq!((same.new, same.old), (7, 7));
    let w: EditMemory<i32, i64> = EditMemory::init_same(9);
    assert_eq!((w.new, w.old), (9, 9i64));
    assert_eq!(EditMemory::new(1, 2).swapped(), EditMemory::new(2, 1));
}

#[test]
fn edit_names() {
    assert_eq!(Edit::from(CatfoodEdit(EditMemory::new(1, 0))).get_name(), "catfood");
    assert_eq!(
        Edit::from(InquiryCodeEdit(EditMemory::new("a".to_string(), "b".to_string()))).get_name(),
        "inquiry-code"
    );
    let op = ClearStoryChapters::ClearAll(ClearAllChaptersOptions::default());
    let e: Edit = StoryChaptersEdit(EditMemory::new(op, StoryChapters::default())).into();
    assert_eq!(e.get_name(), "main-story");
}

fn stage(chapter: StoryChapterType, id: u8) -> StoryStage {
    StoryStage { chapter, stage_id: StageId::new(id).unwrap() }
}

#[test]
fn story_edit_apply_then_revert() {
    let before = StoryChapters::default();
    let eoc2 = StoryChapterType::Eoc(InnerChapterType::Second);
    let opts = ClearStageOptions::default().with_stage(stage(eoc2, 5)).with_clear_amount(2);
    let edit = StoryChaptersEdit(EditMemory::new(ClearStoryChapters::ClearStage(opts), before));
    let mut chapters = before;
    edit.apply(&mut chapters);
    assert_eq!(chapters.clear_times[1][5], 2);
    assert_eq!(chapters.chapter_progress[1], 5);
    edit.revert(&mut chapters);
    assert_eq!(chapters.clear_times, before.clear_times);
    assert_eq!(chapters.chapter_progress, before.chapter_progress);
}

#[test]
fn story_edit_clear_chapter_and_all() {
    let before = StoryChapters::default();
    let itf1 = StoryChapterType::Itf(InnerChapterType::First);
    let opts = ClearChapterOptions { chapter: itf1, clear_amount: 1, add_to_clears: true };
    let edit = StoryChaptersEdit(EditMemory::new(ClearStoryChapters::ClearChapter(opts), before));
    let mut chapters = before;
    edit.apply(&mut chapters);
    assert_eq!(chapters.chapter_progress[4], 48);
    assert!(chapters.clear_times[4][..49].iter().all(|&c| c == 1));
    assert_eq!(chapters.clear_times[4][49], 0);

    let all = StoryChaptersEdit(EditMemory::new(
        ClearStoryChapters::ClearAll(ClearAllChaptersOptions { clear_amount: 1, add_to_clears: false }),
        chapters,
    ));
    let mut c2 = chapters;
    all.apply(&mut c2);
    assert_eq!(c2.chapter_progress[3], 0);
    assert_eq!(c2.chapter_progress[0], 48);
    assert_eq!(c2.chapter_progress[9], 48);
    all.revert(&mut c2);
    assert_eq!(c2.chapter_progress, chapters.chapter_progress);
}

#[test]
fn closest_game_version() {
    let v = vec![GameVersion(130000), GameVersion(120000), GameVersion(140000)];
    assert_eq!(GameRepoMetadata::find_closest_gv(v.clone(), GameVersion(125000)), Some(GameVersion(130000)));
    assert_eq!(GameRepoMetadata::find_closest_gv(v.clone(), GameVersion(130000)), Some(GameVersion(130000)));
    assert_eq!(GameRepoMetadata::find_closest_gv(v.clone(), GameVersion(150000)), Some(GameVersion(140000)));
    assert_eq!(GameRepoMetadata::find_closest_gv(v, GameVersion(0)), Some(GameVersion(120000)));
    assert_eq!(GameRepoMetadata::find_closest_gv(Vec::new(), GameVersion(1)), None);
}

#[test]
fn closest_meta_version_with_path() {
    let meta = GameRepoMetadata {
        base_url: "https://example.invalid/".to_string(),
        versions: vec![
            (CountryCode::En, vec![(GameVersion(130000), "en/13".to_string()), (GameVersion(140000), "en/14".to_string())]),
            (CountryCode::Jp, vec![]),
        ],
    };
    assert_eq!(meta.find_closest_meta_gv(CountryCode::En, GameVersion(140000)), Some((GameVersion(140000), "en/14")));
    assert_eq!(meta.find_closest_meta_gv(CountryCode::En, GameVersion(135000)), Some((GameVersion(140000), "en/14")));
    assert_eq!(meta.find_closest_meta_gv(CountryCode::En, GameVersion(1)), Some((GameVersion(130000), "en/13")));
    assert_eq!(meta.find_closest_meta_gv(CountryCode::Jp, GameVersion(1)), None);
    assert_eq!(meta.find_closest_meta_gv(CountryCode::Kr, GameVersion(1)), None);
}

#[test]
fn metadata_built_by_insertion() {
    let mut meta = GameRepoMetadata::new("https://example.invalid/".to_string());
    meta.insert_version(CountryCode::En, GameVersion(130000), "en/13".to_string());
    meta.insert_version(CountryCode::Jp, GameVersion(140000), "jp/14".to_string());
    meta.insert_version(CountryCode::En, GameVersion(140000), "en/14".to_string());
    // a second path for a listed version takes the place of the first
    meta.insert_version(CountryCode::En, GameVersion(130000), "en/13b".to_string());
    assert_eq!(meta.versions.len(), 2);
    assert_eq!(meta.versions[0].1.len(), 2);
    assert_eq!(meta.find_closest_meta_gv(CountryCode::En, GameVersion(120000)), Some((GameVersion(130000), "en/13b")));
    assert_eq!(meta.find_closest_meta_gv(CountryCode::En, GameVersion(135000)), Some((GameVersion(140000), "en/14")));
    assert_eq!(meta.find_closest_meta_gv(CountryCode::Jp, GameVersion(1)), Some((GameVersion(140000), "jp/14")));
    assert_eq!(meta.find_closest_meta_gv(CountryCode::Kr, GameVersion(1)), None);
}

#[test]
fn language_packs() {
    assert_eq!(lang_pack_name("resLocal", "en"), "resLocal");
    assert_eq!(lang_pack_name("resLocal", "jp"), "resLocal");
    assert_eq!(lang_pack_name("resLocal", "ko"), "resLocal");
    assert_eq!(lang_pack_name("resLocal", "fr"), "resLocal_fr");
    assert_eq!(lang_pack_name("resLocal", ""), "resLocal_");
}

#[test]
fn number_text() {
    assert_eq!(decimal_string(0), "0");
    assert_eq!(decimal_string(1700000000), "1700000000");
    assert_eq!(decimal_string(u64::MAX), "18446744073709551615");
    assert_eq!(i32_decimal_string(-45), "-45");
    assert_eq!(i32_decimal_string(i32::MIN), i32::MIN.to_string());
    assert_eq!(i32_decimal_string(0), "0");
    assert_eq!(lower_hex_string(0), "0");
    assert_eq!(lower_hex_string(255), "ff");
    assert_eq!(lower_hex_string(u128::MAX), "ffffffffffffffffffffffffffffffff");
}

#[test]
fn parse_i32_like_std() {
    assert_eq!(parse_i32(b"123"), Ok(123));
    assert_eq!(parse_i32(b"-2147483648"), Ok(i32::MIN));
    assert_eq!(parse_i32(b"+2147483647"), Ok(i32::MAX));
    assert_eq!(parse_i32(b"2147483648"), Err(IntErrorKind::PosOverflow));
    assert_eq!(parse_i32(b"-2147483649"), Err(IntErrorKind::NegOverflow));
    assert_eq!(parse_i32(b""), Err(IntErrorKind::Empty));
    assert_eq!(parse_i32(b"-"), Err(IntErrorKind::InvalidDigit));
    assert_eq!(parse_i32(b"1a"), Err(IntErrorKind::InvalidDigit));
    for s in ["0", "-0", "+5", "99999999999", "-12x", " 1"] {
        let expected = s.parse::<i32>().map_err(|e| e.kind().clone());
        let got = parse_i32(s.as_bytes());
        match (expected, got) {
            (Ok(a), Ok(b)) => assert_eq!(a, b),
            (Err(_), Err(_)) => {}
            _ => panic!("mismatch for {s}"),
        }
    }
}

#[test]
fn typed_values() {
    let view = |s: &str| BasicItemView { item: (), current_value: s.to_string() };
    assert_eq!(view("50").get_value(9999, 0), Ok(50));
    assert_eq!(view("-1").get_value(9999, 0), Err(BasicItemError::TooSmall(0)));
    assert_eq!(view("10000").get_value(9999, 0), Err(BasicItemError::TooLarge(9999)));
    assert_eq!(view("ab").get_value(9999, 0), Err(BasicItemError::InvalidInt(IntErrorKind::InvalidDigit)));
    assert_eq!(view("").get_value(9999, 0), Err(BasicItemError::InvalidInt(IntErrorKind::Empty)));
    for v in [0, 45, -45, i32::MIN, i32::MAX] {
        let shown = BasicItemView { item: (), current_value: i32_decimal_string(v) };
        assert_eq!(shown.get_value(i32::MAX, i32::MIN), Ok(v));
    }
    assert_eq!(BasicItemFeature::Catfood.to_string(), "Catfood");
    assert_eq!(BasicItemFeature::Xp.to_string(), "XP");
}

#[test]
fn screens() {
    let all = UIType::all();
    assert_eq!(all.len(), 8);
    assert_eq!(all[0], UIType::LoadSave);
    assert_eq!(all[7], UIType::EditLog);
    assert_eq!(UIType::NormalTickets.get_str(), "normal-tickets");
    assert_eq!(UIType::LoadSave.get_str(), "load-save");
    assert!(!UIType::LoadSave.needs_save_file());
    assert!(UIType::Xp.needs_save_file());
}
