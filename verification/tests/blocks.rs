use bcsfe::blocks::gv_71::GV71Block;
use bcsfe::blocks::gv_72::{GV72Block, MapResetData};
use bcsfe::blocks::gv_80000::{GV80000Block, GoldPass, Talent};
use bcsfe::blocks::gv_90100::GV90100Block;
use bcsfe::blocks::gv_90300::{GV90300Block, GauntletChapters, Unknown90300};
use bcsfe::blocks::gv_90400::{
    CatSlot, ClearedSlots, Engima, EnigmaStage, ExtraEnigmaData, ExtraEnigmaDataInner, GV90400Block,
    LineupCat,
};
use bcsfe::blocks::gv_90500::{GV90500Block, Unknown90500_100300};
use bcsfe::blocks::gv_90900::{CatShrine, GV90900Block};
use bcsfe::country_code::CountryCode;
use bcsfe::game_version::GameVersion;
use bcsfe::save::chapters::ChaptersGeneric;
use bcsfe::save::GVCC;
use bcsfe::save::fields::{Form, Formi8};
use bcsfe::stream::compound::{Assertable, HashMapLength};
use bcsfe::stream::modeled::{I32List, ModelMap};
use bcsfe::stream::{Reader, Writer};

fn gvcc(gv: u32) -> GVCC {
    GVCC { cc: CountryCode::En, gv: GameVersion(gv) }
}

fn ends_with_marker(bytes: &[u8], marker: i32) -> bool {
    bytes.len() >= 4 && bytes[bytes.len() - 4..] == marker.to_le_bytes()
}

fn empty_gauntlets() -> GauntletChapters {
    GauntletChapters {
        chapters: ChaptersGeneric {
            selected_stages: vec![],
            clear_progress: vec![],
            stages: vec![],
            unlock_state: vec![],
        },
        unknown: vec![],
    }
}

#[test]
fn gv90100_layout() {
    let b = GV90100Block { unknown_1: 1, unknown_2: 2, unknown_date: 3, unknown_timestamp: 2.5f64.to_bits(), _90100: Assertable };
    let mut w = Writer::new();
    b.write(&mut w);
    let bytes = w.into_bytes();
    assert_eq!(bytes.len(), 2 + 2 + 4 + 8 + 4);
    assert!(ends_with_marker(&bytes, 90100));
    let back = GV90100Block::read(&mut Reader::new(bytes)).ok().unwrap();
    assert_eq!(f64::from_bits(back.unknown_timestamp), 2.5);
    assert_eq!(back.unknown_date, 3);
}

#[test]
fn gv71_roundtrip() {
    let b = GV71Block {
        gamatoto_collab_flags: HashMapLength(vec![(1, true), (2, false)]),
        gamatoto_collab_durations: HashMapLength(vec![(5, 10.0f64.to_bits())]),
    };
    let mut w = Writer::new();
    b.write(&mut w);
    let bytes = w.into_bytes();
    assert_eq!(bytes.len(), 4 + 2 * 5 + 4 + 12 + 4);
    assert!(ends_with_marker(&bytes, 71));
    let back = GV71Block::read(&mut Reader::new(bytes)).ok().unwrap();
    assert_eq!(back.gamatoto_collab_flags.0, vec![(1, true), (2, false)]);
    assert_eq!(back.gamatoto_collab_durations.0, vec![(5, 10.0f64.to_bits())]);
}

#[test]
fn gv72_roundtrip() {
    let reset = MapResetData { yearly_end_timestamp: 1, monthly_end_timestamp: 2, weekly_end_timestamp: 3, daily_end_timestamp: 4 };
    let b = GV72Block { map_resets: ModelMap(vec![(3, I32List(vec![reset, reset]))]), _72: Assertable };
    let mut w = Writer::new();
    b.write(&mut w);
    let bytes = w.into_bytes();
    assert_eq!(bytes.len(), 4 + 4 + 4 + 2 * 32 + 4);
    let back = GV72Block::read(&mut Reader::new(bytes)).ok().unwrap();
    assert_eq!(back.map_resets.0[0].1 .0, vec![reset, reset]);
}

fn gold_pass(badge: bool) -> GoldPass {
    GoldPass {
        officer_id: 7,
        total_renewal_times: 1,
        start_date_now: 1,
        end_date_now: 2,
        start_date_next: 3,
        end_date_next: 4,
        start_date_total: 5,
        end_date_total: 6,
        time_error_end: 7,
        total_state_updates: 8,
        login_bonus_date: 9,
        claimed_rewards: HashMapLength(vec![(1, 2)]),
        remaining_days_popup: 10,
        first_popup_flag: true,
        badge_flag: badge,
    }
}

#[test]
fn gold_pass_badge_by_version() {
    let g = gold_pass(true);
    let mut w = Writer::new();
    g.write(&mut w, gvcc(80000));
    let old = w.into_bytes();
    let mut w = Writer::new();
    g.write(&mut w, gvcc(80100));
    let new = w.into_bytes();
    assert_eq!(new.len(), old.len() + 1);
    let back = GoldPass::read(&mut Reader::new(old), gvcc(80000)).ok().unwrap();
    assert!(!back.badge_flag);
    assert_eq!(back.officer_id, 7);
    let back = GoldPass::read(&mut Reader::new(new), gvcc(80100)).ok().unwrap();
    assert!(back.badge_flag);
    assert_eq!(back.claimed_rewards.0, vec![(1, 2)]);
}

#[test]
fn gv80000_roundtrip() {
    let b = GV80000Block {
        gold_pass: gold_pass(false),
        cat_talents: ModelMap(vec![(9, I32List(vec![Talent { id: 1, level: 10 }]))]),
        np: 55,
        unknown: true,
    };
    let mut w = Writer::new();
    b.write(&mut w, gvcc(120000));
    let bytes = w.into_bytes();
    assert!(ends_with_marker(&bytes, 80000));
    let back = GV80000Block::read(&mut Reader::new(bytes), gvcc(120000)).ok().unwrap();
    assert_eq!(back.np, 55);
    assert_eq!(back.cat_talents.0[0].1 .0, vec![Talent { id: 1, level: 10 }]);
}

#[test]
fn gv90300_roundtrip() {
    let b = GV90300Block {
        unknown: bcsfe::stream::compound::LengthVec(vec![Unknown90300 { u1: 1, u2: 2, u3: 3, u4: 4, u5: 5, u6: 6, u7: 7 }]),
        unknown_2: HashMapLength(vec![(1, 2)]),
        gauntlet_chapters: empty_gauntlets(),
    };
    let mut w = Writer::new();
    b.write(&mut w);
    let bytes = w.into_bytes();
    assert!(ends_with_marker(&bytes, 90300));
    let back = GV90300Block::read(&mut Reader::new(bytes)).ok().unwrap();
    assert_eq!(back.unknown.0.len(), 1);
    assert_eq!(back.unknown_2.0, vec![(1, 2)]);
}

fn enigma(extra: Option<ExtraEnigmaDataInner>) -> Engima {
    Engima {
        energy_since_1: 1,
        energy_since_2: 2,
        enigma_level: 3,
        unknown_1: 4,
        unknown_2: true,
        stages: vec![EnigmaStage { level: 1, stage_id: 2, decoding_status: 3, start_time: 4 }],
        extra_data: ExtraEnigmaData(extra),
    }
}

#[test]
fn extra_enigma_stage_by_version() {
    let inner = ExtraEnigmaDataInner { u1: 1, u2: 2, u3: 3, u4: 4 };
    let e = enigma(Some(inner));
    let mut w = Writer::new();
    e.write(&mut w, gvcc(140400));
    let old = w.into_bytes();
    let mut w = Writer::new();
    e.write(&mut w, gvcc(140500));
    let new = w.into_bytes();
    assert_eq!(new.len(), old.len() + 1 + 17);
    let back = Engima::read(&mut Reader::new(old.clone()), gvcc(140400)).ok().unwrap();
    assert_eq!(back.extra_data, ExtraEnigmaData(None));
    let back = Engima::read(&mut Reader::new(new), gvcc(140500)).ok().unwrap();
    assert_eq!(back.extra_data, ExtraEnigmaData(Some(inner)));
    assert_eq!(back.stages, e.stages);
    let mut w = Writer::new();
    enigma(None).write(&mut w, gvcc(140500));
    assert_eq!(w.into_bytes().len(), old.len() + 1);
}

#[test]
fn gv90400_roundtrip() {
    let slot = CatSlot { cat_id: 1, form: Formi8(Form::First) };
    let b = GV90400Block {
        enigma_clears: empty_gauntlets(),
        enigma: enigma(None),
        cleared_slots: ClearedSlots {
            cats: vec![LineupCat { index: 0, cats: [slot; 10], u1: 0, u2: 0, u3: 0 }],
            stages: vec![],
            unknown: HashMapLength(vec![(1, true)]),
        },
    };
    let mut w = Writer::new();
    b.write(&mut w, gvcc(140500));
    let bytes = w.into_bytes();
    assert!(ends_with_marker(&bytes, 90400));
    let back = GV90400Block::read(&mut Reader::new(bytes), gvcc(140500)).ok().unwrap();
    assert_eq!(back.cleared_slots.cats.len(), 1);
    assert_eq!(back.enigma.enigma_level, 3);
}

#[test]
fn gv90500_records_by_version() {
    let b = GV90500Block {
        collab_gauntlets: empty_gauntlets(),
        u1: true,
        timestamp1: 1,
        timestamp2: 2,
        u2: 3,
        u3: Some(Unknown90500_100300 { u1: 1, u2: true, timestamp1: 2, timestamp2: 3 }),
        u4: None,
        u5: Some(HashMapLength(vec![(1, 2)])),
        _90500: Assertable,
    };
    let sizes: Vec<usize> = [100000u32, 100300, 130700, 140100]
        .iter()
        .map(|&gv| {
            let mut w = Writer::new();
            b.write(&mut w, gvcc(gv));
            w.into_bytes().len()
        })
        .collect();
    assert_eq!(sizes[1], sizes[0] + 18);
    assert_eq!(sizes[2], sizes[1] + 4);
    assert_eq!(sizes[3], sizes[2] + 2 + 12);
    let mut w = Writer::new();
    b.write(&mut w, gvcc(140100));
    let back = GV90500Block::read(&mut Reader::new(w.into_bytes()), gvcc(140100)).ok().unwrap();
    assert_eq!(back.u3, b.u3);
    assert!(back.u4.is_some());
    assert_eq!(back.u5.map(|m| m.0), Some(vec![(1, 2)]));
    let mut w = Writer::new();
    b.write(&mut w, gvcc(100000));
    let back = GV90500Block::read(&mut Reader::new(w.into_bytes()), gvcc(100000)).ok().unwrap();
    assert_eq!(back.u3, None);
    assert!(back.u5.is_none());
}

#[test]
fn gv90900_roundtrip() {
    let b = GV90900Block {
        cat_shrine: CatShrine { unknown: true, stamp_1: 1, stamp_2: 2, shrine_gone: false, flags: vec![1, 2, 3], xp_offering: -5 },
        u1: 7,
        u2: 8,
    };
    let mut w = Writer::new();
    b.write(&mut w);
    let bytes = w.into_bytes();
    assert_eq!(bytes.len(), 1 + 8 + 8 + 1 + 1 + 3 + 8 + 16 + 4);
    let back = GV90900Block::read(&mut Reader::new(bytes)).ok().unwrap();
    assert_eq!(back.cat_shrine.flags, vec![1, 2, 3]);
    assert_eq!(back.cat_shrine.xp_offering, -5);
    assert_eq!((back.u1, back.u2), (7, 8));
}
