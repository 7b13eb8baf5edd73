use bcsfe::country_code::CountryCode;
use bcsfe::game_version::GameVersion;
use bcsfe::network::account_info::{EditorAccountInfo, GameAccountInfo};
use bcsfe::network::password::{
    v1_headers, v2_headers, v2_headers_empty, AccountState, ManagedItem, ManagedItemDetailType,
    ManagedItemType, NullPayload, PasswordJsonResponse, RequestJsonResponseV1,
    RequestJsonResponseV2, UploadInfo,
};
use bcsfe::network::signature::{sign_v1, sign_v1_with, sign_v2, sign_v2_with};
use bcsfe::network::stored_string::{
    get_identifier, read_from_save, read_password, remove_from_save, save_auth_token,
    save_password, store_to_save, StringStorable,
};
use bcsfe::network::transfer::{
    gen_nonce, reception_response, ClientCountryCode, ClientInfo, Device, Os, ReceptionPayload,
};
use bcsfe::save::GVCC;

fn is_lower_hex(s: &str) -> bool {
    s.chars().all(|c| c.is_ascii_digit() || ('a'..='f').contains(&c))
}

#[test]
fn signature_v2_known_value() {
    let random: Vec<u8> = (0u8..32).collect();
    let s = sign_v2_with("abc123", b"hello", &random);
    assert_eq!(
        s,
        "000102030405060708090a0b0c0d0e0f101112131415161718191a1b1c1d1e1f27518d8e164d6ff59f76c9050f1aaf4f2fb6ad7cd7c62d3e607b2f4bab8bc22a"
    );
}

#[test]
fn signature_v1_signs_data_twice() {
    let random: Vec<u8> = (0u8..20).collect();
    let s = sign_v1_with("abc123", b"hello", &random);
    assert_eq!(
        s,
        "000102030405060708090a0b0c0d0e0f10111213239882123cd27937ca6afbac37ffa9a666d429c4"
    );
}

#[test]
fn signatures_with_fresh_random_bytes() {
    let s2 = sign_v2("iq", b"data").unwrap();
    assert_eq!(s2.len(), 128);
    assert!(is_lower_hex(&s2));
    let s1 = sign_v1("iq", b"data").unwrap();
    assert_eq!(s1.len(), 80);
    assert!(is_lower_hex(&s1));
}

#[test]
fn nonce_is_lowercase_hex() {
    let n = gen_nonce().unwrap();
    assert!(!n.is_empty() && n.len() <= 32);
    assert!(is_lower_hex(&n));
    assert!(n == "0" || !n.starts_with('0'));
}

#[test]
fn headers_v1_and_v2() {
    let h = v1_headers("iq", b"{}", 1700000000).unwrap();
    let names: Vec<&str> = h.iter().map(|(n, _)| n.as_str()).collect();
    assert_eq!(
        names,
        vec![
            "content-type",
            "nyanko-signature-version",
            "nyanko-signature-algorithm",
            "nyanko-timestamp",
            "nyanko-signature"
        ]
    );
    assert_eq!(h[0].1, "application/json");
    assert_eq!(h[1].1, "1");
    assert_eq!(h[2].1, "HMACSHA256");
    assert_eq!(h[3].1, "1700000000");
    assert_eq!(h[4].1.len(), 128);

    let h2 = v2_headers("iq", "tok", b"{}", 5).unwrap();
    assert_eq!(h2.len(), 6);
    assert_eq!(h2[3].1, "5");
    assert_eq!(h2[5], ("authorization".to_string(), "Bearer tok".to_string()));
}

#[test]
fn headers_v2_empty_exact() {
    let h = v2_headers_empty("abc", 0);
    assert_eq!(
        h,
        vec![
            ("content-type".to_string(), "application/json".to_string()),
            ("nyanko-timestamp".to_string(), "0".to_string()),
            ("authorization".to_string(), "Bearer abc".to_string()),
        ]
    );
}

#[test]
fn into_payload_both_versions() {
    let r = RequestJsonResponseV1 { status_code: 1, timestamp: 2, payload: Some(5), nonce: String::new() };
    assert_eq!(r.into_payload(), Ok(5));
    let r: RequestJsonResponseV1<i32> =
        RequestJsonResponseV1 { status_code: 1, timestamp: 2, payload: None, nonce: String::new() };
    assert_eq!(r.into_payload(), Err(NullPayload));
    let r: RequestJsonResponseV2<i32> = RequestJsonResponseV2 {
        status_code: None,
        timestamp: None,
        payload: None,
        nonce: None,
        message: None,
        code: None,
    };
    assert_eq!(r.into_payload(), Err(NullPayload));
}

fn upload_info() -> UploadInfo {
    UploadInfo {
        inquiry_code: Some("iq".to_string()),
        password_refresh_token: None,
        gvcc: GVCC { cc: CountryCode::En, gv: GameVersion(140300) },
        catfood: 100,
        rare_tickets: 2,
        platinum_tickets: 3,
        legend_tickets: 4,
        playtime: 5,
        user_rank: 6,
    }
}

#[test]
fn account_state_for_upload() {
    let editor = EditorAccountInfo::new(GameAccountInfo::new(Some("pw".to_string()), None), Vec::new());
    let s = AccountState::for_upload(&upload_info(), &editor);
    assert_eq!(s.known_inquiry_code(), Some("iq".to_string()));
    assert_eq!(s.known_password(), Some("pw".to_string()));
    assert_eq!(s.known_password_refresh_token(), None);
    assert_eq!(s.known_auth_token(), None);
    assert_eq!(s.items.catfood_amount, 100);
    assert!(!s.items.is_paid);
    assert_eq!(s.items.rare_ticket_amount, 2);
    assert_eq!(s.items.platinum_ticket_amount, 3);
    assert_eq!(s.items.legend_ticket_amount, 4);
    assert_eq!(s.account_created_at, 0);
}

#[test]
fn account_state_records_replies() {
    let mut s = AccountState::for_upload(&upload_info(), &EditorAccountInfo::default());
    let prt = s.record_registration(PasswordJsonResponse {
        password: "p1".to_string(),
        password_refresh_token: "r1".to_string(),
        account_code: None,
    });
    assert_eq!(prt, "r1");
    assert_eq!(s.known_password(), Some("p1".to_string()));
    let (pw, new_account) = s.record_password(PasswordJsonResponse {
        password: "p2".to_string(),
        password_refresh_token: "r2".to_string(),
        account_code: Some("iq2".to_string()),
    });
    assert_eq!(pw, "p2");
    assert!(new_account);
    assert_eq!(s.known_inquiry_code(), Some("iq2".to_string()));
    assert_eq!(s.known_password_refresh_token(), Some("r2".to_string()));
    s.record_auth_token("tok".to_string());
    assert_eq!(s.known_auth_token(), Some("tok".to_string()));
    s.record_inquiry_code("iq3".to_string());
    assert_eq!(s.known_inquiry_code(), Some("iq3".to_string()));
}

#[test]
fn managed_items_are_appended() {
    let mut info = EditorAccountInfo::default();
    let item = ManagedItem {
        amount: 10,
        detail_code: "code".to_string(),
        detail_created_at: 1,
        detail_type: ManagedItemDetailType::Get,
        managed_item_type: ManagedItemType::Catfood,
    };
    info.add_managed_item(item.clone());
    info.add_managed_item(ManagedItem { amount: 3, ..item });
    assert_eq!(info.managed_items.len(), 2);
    assert_eq!(info.managed_items[0].amount, 10);
    assert_eq!(info.managed_items[1].amount, 3);
}

#[test]
fn client_info_defaults_and_builders() {
    let c = ClientInfo::new(CountryCode::Jp, GameVersion(140300));
    assert_eq!(c.client.country_code, ClientCountryCode::Ja);
    assert_eq!(c.client.version, GameVersion(140300));
    assert_eq!(c.device.model, "SM-G955F");
    assert_eq!(c.os.os_type, "android");
    assert_eq!(c.os.version, "9");
    let c = c
        .with_cc(CountryCode::Tw)
        .with_gv(GameVersion(1))
        .with_device_maybe(None)
        .with_os_maybe(Some(Os { os_type: "ios".to_string(), version: "17".to_string() }));
    assert_eq!(c.client.country_code, ClientCountryCode::Tw);
    assert_eq!(c.client.version, GameVersion(1));
    assert_eq!(c.device.model, "SM-G955F");
    assert_eq!(c.os.os_type, "ios");
    let c = c.with_device(Device { model: "X".to_string() });
    assert_eq!(c.device.model, "X");
    assert_eq!(ClientInfo::default().client.country_code, ClientCountryCode::Ja);
    assert_eq!(ClientCountryCode::from(CountryCode::Kr), ClientCountryCode::Kr);
    assert_eq!(ClientCountryCode::from(CountryCode::En), ClientCountryCode::En);
}

#[test]
fn reception_payload_has_pin_and_nonce() {
    let p = ReceptionPayload::new(ClientInfo::default(), "1234".to_string()).unwrap();
    assert_eq!(p.pin, "1234");
    assert!(is_lower_hex(&p.nonce));
}

#[test]
fn reception_response_checks_content_type() {
    let ok = reception_response(
        Some(b"application/octet-stream".as_slice()),
        Some("prt".to_string()),
        Some("pw".to_string()),
        vec![1, 2, 3],
    )
    .unwrap();
    assert_eq!(ok.save_data, vec![1, 2, 3]);
    assert_eq!(ok.account_info.password, Some("pw".to_string()));
    assert_eq!(ok.account_info.auth_token, None);
    assert_eq!(ok.password_refresh_token, Some("prt".to_string()));
    assert!(reception_response(Some(b"application/json".as_slice()), None, None, vec![]).is_none());
    assert!(reception_response(None, None, None, vec![]).is_none());
}

#[test]
fn stored_string_store_and_read() {
    let mut lines: Vec<String> = vec!["other".to_string()];
    "value:with:colons".to_string().store("key", &mut lines);
    assert_eq!(lines[1], "key:value:with:colons");
    assert_eq!(String::read("key", &lines), Some("value:with:colons".to_string()));
    assert_eq!(String::read("missing", &lines), None);
    let all = <Vec<String>>::read("key", &vec!["key:1".to_string(), "nokey".to_string(), "key:2".to_string(), "keynocolon".to_string()]).unwrap();
    assert_eq!(all, vec!["1".to_string(), "2".to_string()]);
    let mut stored = Vec::new();
    vec!["a".to_string(), "b".to_string()].store("k", &mut stored);
    assert_eq!(stored, vec!["k:a".to_string(), "k:b".to_string()]);
}

#[test]
fn stored_strings_in_order_ids() {
    assert_eq!(get_identifier("password"), "_bcsfe:password");
    let mut ids: Vec<String> = vec!["order1".to_string()];
    save_password("hunter2", &mut ids);
    save_auth_token("tok", &mut ids);
    assert_eq!(ids, vec!["order1", "_bcsfe:password:hunter2", "_bcsfe:auth_token:tok"]);
    // Reading looks lines up by the bare name, which the stored lines do not start with.
    assert_eq!(read_password(&ids), None);
    assert_eq!(read_from_save("_bcsfe", &ids), Some("password:hunter2".to_string()));
    store_to_save("x", "y", &mut ids);
    assert_eq!(ids[3], "_bcsfe:x:y");
    // Removal keeps the lines stored under the identifier.
    remove_from_save("password", &mut ids);
    assert_eq!(ids, vec!["_bcsfe:password:hunter2"]);
}
