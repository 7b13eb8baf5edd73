use bcsfe::country_code::CountryCode;
use bcsfe::game_data::GameRepoMetadata;
use bcsfe::game_version::GameVersion;
use bcsfe::network::account_info::{EditorAccountInfo, GameAccountInfo};
use bcsfe::network::password::{
    v1_headers_signed, v2_headers_signed, AccountAction, AccountGoal, AccountReply, AccountState,
    UploadInfo,
};
use bcsfe::network::stored_string::{read_save_key, remove_save_key, save_save_key};
use bcsfe::save::fields::SomeTimeInfo;
use bcsfe::save::GVCC;
use bcsfe::stream::compound::LengthString;
use bcsfe::stream::{Reader, Writer};

fn info(iq: Option<&str>, prt: Option<&str>) -> UploadInfo {
    UploadInfo {
        inquiry_code: iq.map(|s| s.to_string()),
        password_refresh_token: prt.map(|s| s.to_string()),
        gvcc: GVCC { cc: CountryCode::Jp, gv: GameVersion(140300) },
        catfood: 0,
        rare_tickets: 0,
        platinum_tickets: 0,
        legend_tickets: 0,
        playtime: 0,
        user_rank: 0,
    }
}

fn pairs(h: &[(String, String)]) -> Vec<(&str, &str)> {
    h.iter().map(|(a, b)| (a.as_str(), b.as_str())).collect()
}

#[test]
fn signed_header_lists() {
    let h = v1_headers_signed("abcd".to_string(), 1700000000);
    assert_eq!(
        pairs(&h),
        vec![
            ("content-type", "application/json"),
            ("nyanko-signature-version", "1"),
            ("nyanko-signature-algorithm", "HMACSHA256"),
            ("nyanko-timestamp", "1700000000"),
            ("nyanko-signature", "abcd"),
        ]
    );
    let h = v2_headers_signed("ef".to_string(), "tok", 5);
    assert_eq!(h.len(), 6);
    assert_eq!(pairs(&h)[4], ("nyanko-signature", "ef"));
    assert_eq!(pairs(&h)[5], ("authorization", "Bearer tok"));
}

#[test]
fn known_goals_need_no_request() {
    let editor = EditorAccountInfo::new(GameAccountInfo::new(Some("pw".to_string()), None), Vec::new());
    let s = AccountState::for_upload(&info(Some("iq"), Some("prt")), &editor);
    assert_eq!(s.next_action(AccountGoal::InquiryCode, 0, AccountReply::Plain), AccountAction::Done);
    assert_eq!(s.next_action(AccountGoal::Password, 0, AccountReply::Plain), AccountAction::Done);
    assert_eq!(s.next_action(AccountGoal::AuthToken, 0, AccountReply::Plain), AccountAction::Obtain(AccountGoal::Password));
    assert_eq!(s.next_action(AccountGoal::AuthToken, 1, AccountReply::Plain), AccountAction::Obtain(AccountGoal::InquiryCode));
    assert_eq!(s.next_action(AccountGoal::AuthToken, 2, AccountReply::Plain), AccountAction::GetAuthToken);
    assert_eq!(s.next_action(AccountGoal::AuthToken, 3, AccountReply::Plain), AccountAction::Done);
}

#[test]
fn password_way_with_fallback_and_setup() {
    let s = AccountState::for_upload(&info(None, None), &EditorAccountInfo::default());
    let g = AccountGoal::Password;
    assert_eq!(s.next_action(g, 0, AccountReply::Plain), AccountAction::Obtain(AccountGoal::PasswordRefreshToken));
    assert_eq!(s.next_action(g, 1, AccountReply::Plain), AccountAction::Obtain(AccountGoal::InquiryCode));
    assert_eq!(s.next_action(g, 2, AccountReply::Plain), AccountAction::RefreshPassword);
    assert_eq!(s.next_action(g, 3, AccountReply::NoPayload), AccountAction::RegisterForPassword);
    assert_eq!(s.next_action(g, 3, AccountReply::NewAccount), AccountAction::Obtain(AccountGoal::NewAccountSetup));
    assert_eq!(s.next_action(g, 4, AccountReply::NewAccount), AccountAction::Obtain(AccountGoal::NewAccountSetup));
    assert_eq!(s.next_action(g, 3, AccountReply::Plain), AccountAction::Done);
    assert_eq!(s.next_action(AccountGoal::InquiryCode, 0, AccountReply::Plain), AccountAction::CreateAccount);
    assert_eq!(s.next_action(AccountGoal::PasswordRefreshToken, 1, AccountReply::Plain), AccountAction::Register);
    assert_eq!(s.next_action(AccountGoal::NewAccountSetup, 2, AccountReply::Plain), AccountAction::UpdateManagedItems);
}

#[test]
fn save_key_lines() {
    let mut ids = vec!["other".to_string()];
    let key = vec![("a".to_string(), "1".to_string()), ("b".to_string(), "x:y".to_string())];
    save_save_key(&key, &mut ids);
    assert_eq!(ids, vec!["other", "_bcsfe:save_key:a:1", "_bcsfe:save_key:b:x:y"]);
    // read back by the bare name, so the stored lines are not found
    assert_eq!(read_save_key(&ids), Some(Vec::new()));
    let lines = vec![
        "save_key:a:1".to_string(),
        "save_key:b:2".to_string(),
        "save_key:a:3".to_string(),
        "save_key:nocolon".to_string(),
        "save_keyless".to_string(),
    ];
    let read = read_save_key(&lines).unwrap();
    let mut read: Vec<(String, String)> = read;
    read.sort();
    assert_eq!(read, vec![("a".to_string(), "3".to_string()), ("b".to_string(), "2".to_string())]);
    remove_save_key(&mut ids);
    assert_eq!(ids, vec!["_bcsfe:save_key:a:1", "_bcsfe:save_key:b:x:y"]);
}

#[test]
fn version_path_names() {
    let (region, version) = GameRepoMetadata::get_version_path(CountryCode::Kr, GameVersion(140300));
    assert_eq!(region, "kr");
    assert_eq!(version, "14.03.00");
}

#[test]
fn some_time_info_round_trip() {
    let info = SomeTimeInfo {
        timestamp: 1.5f64.to_bits(),
        server_time_stamp: 2.0f64.to_bits(),
        get_time_save: 0,
        usl1: vec![LengthString("ab".to_string())],
        energy_notification: true,
        full_game_version: 140300,
    };
    let mut w = Writer::new();
    info.write(&mut w);
    let bytes = w.into_bytes();
    assert_eq!(bytes.len(), 24 + 4 + 4 + 2 + 1 + 4);
    assert_eq!(&bytes[24..30], &[1, 0, 0, 0, 2, 0]);
    let back = SomeTimeInfo::read(&mut Reader::new(bytes)).ok().unwrap();
    assert_eq!(f64::from_bits(back.timestamp), 1.5);
    assert_eq!(back.usl1[0].0, "ab");
    assert!(back.energy_notification);
    assert_eq!(back.full_game_version, 140300);
}
