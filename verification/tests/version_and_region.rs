use bcsfe::country_code::{CountryCode, PatchingCode};
use bcsfe::game_version::{GameVersion, InvalidGameVersionStr, IntErrorKind};

#[test]
fn game_version_text() {
    assert_eq!(GameVersion(140300).to_string(), "14.03.00");
    assert_eq!(GameVersion(90700).to_string(), "09.07.00");
}

#[test]
fn game_version_parse() {
    assert_eq!(GameVersion::from_str("14.3.0").ok(), Some(GameVersion(140300)));
    assert_eq!(GameVersion::from_str("09.07.00").ok(), Some(GameVersion(90700)));
    assert_eq!(GameVersion::from_str("+1.2.3").ok(), Some(GameVersion(10203)));
}

#[test]
fn game_version_parse_errors() {
    match GameVersion::from_str("14.3") {
        Err(InvalidGameVersionStr::IncorrectSegmentNumber(n, v)) => {
            assert_eq!(n, 2);
            assert_eq!(v, vec![14, 3]);
        }
        _ => panic!("expected a segment count error"),
    }
    match GameVersion::from_str("14.x.0.1") {
        Err(InvalidGameVersionStr::InvalidSegment(s, k)) => {
            assert_eq!(s, "x");
            assert_eq!(k, IntErrorKind::InvalidDigit);
        }
        _ => panic!("expected a segment error"),
    }
    match GameVersion::from_str("300.1.1") {
        Err(InvalidGameVersionStr::InvalidSegment(_, k)) => assert_eq!(k, IntErrorKind::PosOverflow),
        _ => panic!("expected an overflow"),
    }
    match GameVersion::from_str("1..1") {
        Err(InvalidGameVersionStr::InvalidSegment(_, k)) => assert_eq!(k, IntErrorKind::Empty),
        _ => panic!("expected an empty segment"),
    }
}

#[test]
fn game_version_segments() {
    assert_eq!(GameVersion(140300).into_segments(), [14, 3, 0]);
    assert_eq!(GameVersion::from_segments([12, 5, 1]), GameVersion(120501));
}

#[test]
fn country_code_text() {
    for cc in CountryCode::all() {
        assert_eq!(CountryCode::from_str(&cc.to_string()).ok(), Some(cc));
    }
    assert_eq!(CountryCode::En.to_string(), "en");
    assert_eq!(CountryCode::Kr.to_lang(), "ko");
    assert_eq!(CountryCode::Jp.to_lang(), "ja");
    assert!(CountryCode::from_str("xx").is_err());
    assert_eq!(CountryCode::from_str("JP").err().map(|e| e.0), Some("JP".to_string()));
}

#[test]
fn patching_code_text() {
    assert_eq!(PatchingCode(CountryCode::Jp).to_string(), "");
    assert_eq!(PatchingCode(CountryCode::Tw).to_string(), "tw");
    assert_eq!(PatchingCode::from_str("").ok(), Some(PatchingCode(CountryCode::Jp)));
    assert_eq!(PatchingCode::from_str("kr").ok(), Some(PatchingCode(CountryCode::Kr)));
    assert!(PatchingCode::from_str("jpn").is_err());
    for p in PatchingCode::all() {
        assert_eq!(PatchingCode::from_str(&p.to_string()).ok(), Some(p));
    }
}
