use bcsfe::blocks::gv_80700::GV80700Block;
use bcsfe::blocks::gv_90700::{GV90700Block, TalentOrbs};
use bcsfe::country_code::CountryCode;
use bcsfe::game_version::GameVersion;
use bcsfe::save::chapters::{ChaptersGeneric, GenericChapterArgs};
use bcsfe::save::event::{EventChapters, EventChaptersT};
use bcsfe::save::GVCC;
use bcsfe::stream::compound::HashMapLength;
use bcsfe::stream::modeled::{I32List, I8Map, ModelMap};
use bcsfe::stream::{Reader, StreamErrorKind, Writer};

fn gvcc(gv: u32) -> GVCC {
    GVCC { cc: CountryCode::En, gv: GameVersion(gv) }
}

fn small_byte_events() -> EventChaptersT<i8, i16> {
    EventChaptersT {
        selected_stages: vec![vec![vec![1], vec![2]]],
        clear_progress: vec![vec![vec![3], vec![4]]],
        clear_amounts: vec![vec![vec![vec![5], vec![6]], vec![vec![7], vec![8]]]],
        unlock_state: vec![vec![vec![9], vec![10]]],
    }
}

#[test]
fn event_chapters_byte_roundtrip() {
    let e = small_byte_events();
    let mut w = Writer::new();
    e.write(&mut w);
    let bytes = w.into_bytes();
    let mut r = Reader::new(bytes);
    let back = EventChaptersT::<i8, i16>::read(&mut r).ok().unwrap();
    assert_eq!(back.selected_stages, e.selected_stages);
    assert_eq!(back.clear_progress, e.clear_progress);
    assert_eq!(back.clear_amounts, e.clear_amounts);
    assert_eq!(back.unlock_state, e.unlock_state);
    assert_eq!(back.get_total_map_types(), 1);
    assert_eq!(back.get_total_subchapters(), 2);
    assert_eq!(back.get_stars_per_subchapter(), 1);
    assert_eq!(back.get_stages_per_subchapter(), 2);
}

#[test]
fn event_chapters_old_versions_fix_their_counts() {
    let e = EventChapters::Int(EventChaptersT::default());
    let mut w = Writer::new();
    e.write(&mut w, gvcc(30));
    // 3 map types, 150 subchapters, 3 stars and 12 stages, all 32-bit.
    assert_eq!(w.into_bytes().len(), 4 * (3 * 150 * 3 * 3 + 3 * 150 * 3 * 12));
}

#[test]
fn event_chapters_convert_between_layouts() {
    let int = EventChaptersT::<i32, i32>::from(&small_byte_events());
    assert_eq!(int.clear_amounts, vec![vec![vec![vec![5], vec![6]], vec![vec![7], vec![8]]]]);
    let e = EventChapters::Int(int);
    let mut w = Writer::new();
    e.write(&mut w, gvcc(90000));
    let mut r = Reader::new(w.into_bytes());
    match EventChapters::read(&mut r, gvcc(90000)).ok() {
        Some(EventChapters::Byte(x)) => {
            let expected = small_byte_events();
            assert_eq!(x.selected_stages, expected.selected_stages);
            assert_eq!(x.clear_amounts, expected.clear_amounts);
            assert_eq!(x.unlock_state, expected.unlock_state);
        }
        _ => panic!("expected the byte layout"),
    }
}

#[test]
fn chapters_roundtrip() {
    let c: ChaptersGeneric<i32, i32, Vec<Vec<i32>>, i32> = ChaptersGeneric {
        selected_stages: vec![vec![1], vec![2]],
        clear_progress: vec![vec![3], vec![4]],
        stages: vec![vec![vec![5], vec![6], vec![7]], vec![vec![8], vec![9], vec![10]]],
        unlock_state: vec![vec![11], vec![12]],
    };
    assert_eq!(c.total_chapters(), 2);
    assert_eq!(c.total_stars(), 1);
    assert_eq!(c.total_stages(), 3);
    for every_time in [false, true] {
        let args = GenericChapterArgs::new_int(every_time);
        let mut w = Writer::new();
        c.write(&mut w, args);
        let mut r = Reader::new(w.into_bytes());
        let back = ChaptersGeneric::<i32, i32, Vec<Vec<i32>>, i32>::read(&mut r, args).ok().unwrap();
        assert_eq!(back.selected_stages, c.selected_stages);
        assert_eq!(back.clear_progress, c.clear_progress);
        assert_eq!(back.stages, c.stages);
        assert_eq!(back.unlock_state, c.unlock_state);
    }
}

#[test]
fn gv80700_block_roundtrip_and_marker() {
    let b = GV80700Block { unknown: ModelMap(vec![(7, I32List::<i32>(vec![1, 2])), (9, I32List::<i32>(vec![]))]) };
    let mut w = Writer::new();
    b.write(&mut w);
    let bytes = w.into_bytes();
    assert_eq!(&bytes[..4], &[2, 0, 0, 0]);
    assert_eq!(&bytes[bytes.len() - 4..], &80700i32.to_le_bytes());
    let mut r = Reader::new(bytes.clone());
    let back = GV80700Block::read(&mut r).ok().unwrap();
    assert_eq!(back.unknown.0.len(), 2);
    assert_eq!(back.unknown.0[0].0, 7);
    assert_eq!(back.unknown.0[0].1 .0, vec![1, 2]);
    let mut bad = bytes.clone();
    let n = bad.len();
    bad[n - 4] ^= 1;
    match GV80700Block::read(&mut Reader::new(bad)) {
        Err(e) => assert_eq!(e.kind, StreamErrorKind::AssertionFailed { expected: 80700, got: 80701 }),
        Ok(_) => panic!("wrong marker accepted"),
    }
}

#[test]
fn duplicate_keys_are_refused() {
    let b = GV80700Block { unknown: ModelMap(vec![(7, I32List::<i32>(vec![])), (7, I32List::<i32>(vec![]))]) };
    let mut w = Writer::new();
    b.write(&mut w);
    match GV80700Block::read(&mut Reader::new(w.into_bytes())) {
        Err(e) => assert_eq!(e.kind, StreamErrorKind::DuplicateKey),
        Ok(_) => panic!("duplicate key accepted"),
    }
}

#[test]
fn gv90700_block_roundtrip_both_orb_layouts() {
    let b = GV90700Block {
        talent_orbs: TalentOrbs(HashMapLength(vec![(1, 300), (2, 5)])),
        unknown: ModelMap(vec![(3, I8Map(HashMapLength(vec![(4, 5)])))]),
        unknown_2: true,
    };
    let mut w = Writer::new();
    b.write(&mut w, gvcc(120000));
    let mut r = Reader::new(w.into_bytes());
    let back = GV90700Block::read(&mut r, gvcc(120000)).ok().unwrap();
    assert_eq!(back.talent_orbs.0 .0, vec![(1, 300), (2, 5)]);
    assert_eq!(back.unknown.0[0].1 .0 .0, vec![(4, 5)]);
    assert!(back.unknown_2);

    // Before 11.4 the counts are bytes: 300 is cut to 44.
    let mut w = Writer::new();
    b.write(&mut w, gvcc(110000));
    let mut r = Reader::new(w.into_bytes());
    let back = GV90700Block::read(&mut r, gvcc(110000)).ok().unwrap();
    assert_eq!(back.talent_orbs.0 .0, vec![(1, 44), (2, 5)]);
}
