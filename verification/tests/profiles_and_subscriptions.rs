use clashr::calendar::days_to_ymd;
use clashr::profiles::{
    extract_domain, extract_name_from_url, format_expire, format_timestamp, profile_uid, ProfilesState,
};
use clashr::subscription::{
    decode_body, fetch_result, mask_url, parse_content_disposition, parse_field, parse_profile_title,
    parse_subscription_userinfo, FetchResult, HeaderField, SubscriptionInfo,
};

fn header(name: &str, value: &str) -> HeaderField {
    HeaderField { name: name.to_string(), value: Some(value.to_string()) }
}

#[test]
fn field_parsing_follows_semicolons() {
    let s = "upload=123; download=456; total=1073741824; expire=1735689600";
    assert_eq!(parse_field(s, "upload"), 123);
    assert_eq!(parse_field(s, "download"), 456);
    assert_eq!(parse_field(s, "total"), 1073741824);
    assert_eq!(parse_field(s, "expire"), 1735689600);
    assert_eq!(parse_field(s, "missing"), 0);
    assert_eq!(parse_field("upload=abc; upload=7", "upload"), 7);
    assert_eq!(parse_field("upload==5", "upload"), 5);
}

#[test]
fn url_query_is_masked() {
    assert_eq!(mask_url("https://x.com/sub?token=secret"), "https://x.com/sub?<masked>");
    assert_eq!(mask_url("https://x.com/sub"), "https://x.com/sub");
}

#[test]
fn userinfo_header_gives_counters() {
    let hs = vec![header("content-type", "text/plain"), header("subscription-userinfo", "upload=1; download=2; total=3; expire=4")];
    assert_eq!(
        parse_subscription_userinfo(&hs),
        Some(SubscriptionInfo { upload: 1, download: 2, total: 3, expire: 4 })
    );
    let prefixed = vec![header("x-subscription-userinfo", "total=9")];
    assert_eq!(
        parse_subscription_userinfo(&prefixed),
        Some(SubscriptionInfo { upload: 0, download: 0, total: 9, expire: 0 })
    );
    assert_eq!(parse_subscription_userinfo(&[header("content-type", "x")]), None);
}

#[test]
fn profile_title_plain_and_base64() {
    assert_eq!(parse_profile_title(&[header("profile-title", "  My Airport  ")]), Some("My Airport".to_string()));
    assert_eq!(parse_profile_title(&[header("profile-title", "base64:Q2xhc2hSIOacuuWcug==")]), Some("ClashR 机场".to_string()));
    assert_eq!(parse_profile_title(&[header("profile-title", "base64:!!!")]), None);
    assert_eq!(parse_profile_title(&[header("profile-title", "base64://4=")]), None);
    assert_eq!(parse_profile_title(&[header("profile-title", "   ")]), None);
    assert_eq!(parse_profile_title(&[]), None);
}

#[test]
fn content_disposition_filename() {
    assert_eq!(
        parse_content_disposition(&[header("content-disposition", "attachment; filename=\"sub.yaml\"")]),
        Some("sub.yaml".to_string())
    );
    assert_eq!(
        parse_content_disposition(&[header("content-disposition", "attachment; filename=a.yaml; size=3")]),
        Some("a.yaml".to_string())
    );
    assert_eq!(parse_content_disposition(&[header("content-disposition", "inline")]), None);
}

#[test]
fn body_decoding() {
    assert_eq!(decode_body("proxies: []\n"), "proxies: []\n");
    assert_eq!(decode_body("  {\"a\":1}"), "  {\"a\":1}");
    assert_eq!(decode_body("cHJveGllczogW10K"), "proxies: []\n");
    assert_eq!(decode_body("cHJveGll\nczogW10K\n"), "proxies: []\n");
    assert_eq!(decode_body("not base64 ~"), "not base64 ~");
}

#[test]
fn fetch_result_prefers_profile_title() {
    let hs = vec![
        header("content-disposition", "attachment; filename=file.yaml"),
        header("profile-title", "Title"),
        header("subscription-userinfo", "upload=5"),
    ];
    let r: FetchResult = fetch_result(&hs, "cHJveGllczogW10K");
    assert_eq!(r.body, "proxies: []\n");
    assert_eq!(r.name, Some("Title".to_string()));
    assert_eq!(r.extra, Some(SubscriptionInfo { upload: 5, download: 0, total: 0, expire: 0 }));
    let r2 = fetch_result(&hs[..1], "proxies: []");
    assert_eq!(r2.name, Some("file.yaml".to_string()));
    assert_eq!(r2.extra, None);
}

#[test]
fn name_from_subscription_url() {
    assert_eq!(extract_name_from_url("https://hhh.02000.xin/api/v1/client/subscribe?token=x"), "02000");
    assert_eq!(extract_name_from_url("https://www.example.com/sub"), "example");
    assert_eq!(extract_name_from_url("http://localhost:8080/x"), "localhost:8080");
    assert_eq!(extract_name_from_url("https:///x"), "Profile");
    assert_eq!(extract_domain("https://a.b.c/path"), "a.b.c");
}

#[test]
fn age_of_update() {
    assert_eq!(format_timestamp(None, 100), "never");
    assert_eq!(format_timestamp(Some(100), 130), "just now");
    assert_eq!(format_timestamp(Some(200), 100), "just now");
    assert_eq!(format_timestamp(Some(0), 125), "2m ago");
    assert_eq!(format_timestamp(Some(0), 7300), "2h ago");
    assert_eq!(format_timestamp(Some(0), 3 * 86400 + 5), "3d ago");
}

#[test]
fn civil_dates() {
    assert_eq!(days_to_ymd(0), (1970, 1, 1));
    assert_eq!(days_to_ymd(10956), (1999, 12, 31));
    assert_eq!(days_to_ymd(11017), (2000, 3, 1));
    assert_eq!(days_to_ymd(19723), (2024, 1, 1));
    assert_eq!(days_to_ymd(19782), (2024, 2, 29));
    assert_eq!(days_to_ymd(47541), (2100, 3, 1));
    assert_eq!(days_to_ymd(47540), (2100, 2, 28));
}

#[test]
fn expiry_text() {
    let day = 86400u64;
    let expire = 19723 * day;
    assert_eq!(format_expire(0, 5), "");
    assert_eq!(format_expire(expire, expire), "expired");
    assert_eq!(format_expire(expire, expire - 10 * day), "2024-01-01 (10d left)");
    assert_eq!(format_expire(expire, expire - 30 * day - 5), "2024-01-01 (30d left)");
    assert_eq!(format_expire(expire, expire - 31 * day), "2024-01-01");
    assert_eq!(format_expire(expire + 3600, expire), "2024-01-01 (0d left)");
}

#[test]
fn uid_is_r_and_eight_hex_digits() {
    assert_eq!(profile_uid(0), "R00000000");
    assert_eq!(profile_uid(0xdeadbeef), "Rdeadbeef");
    assert_eq!(profile_uid(255), "R000000ff");
}

#[test]
fn import_select_and_delete_profiles() {
    let mut st = ProfilesState::new();
    assert!(!st.import_profile("R1".to_string(), "   ".to_string(), None, 10));
    assert!(st.profiles.is_empty());
    assert!(st.import_profile("R1".to_string(), "https://a.example.com/s".to_string(), None, 10));
    assert!(st.import_profile("R2".to_string(), "https://b.test.org/s".to_string(), Some("Mine".to_string()), 20));
    assert_eq!(st.profiles.len(), 2);
    assert_eq!(st.profiles[0].name, "example");
    assert_eq!(st.profiles[0].profile_type, "remote");
    assert_eq!(st.profiles[1].name, "Mine");
    assert_eq!(st.current_uid, Some("R1".to_string()));
    assert!(st.select_profile("R2".to_string()));
    assert!(!st.select_profile("R2".to_string()));
    assert_eq!(st.delete_profile("R2"), Some("R1".to_string()));
    assert_eq!(st.profiles.len(), 1);
    assert_eq!(st.current_uid, Some("R1".to_string()));
    assert_eq!(st.delete_profile("R1"), None);
    assert!(st.profiles.is_empty());
    assert_eq!(st.current_uid, None);
}

#[test]
fn edit_and_refresh_profiles() {
    let mut st = ProfilesState::new();
    st.import_profile("R1".to_string(), "https://a.example.com/s".to_string(), None, 10);
    st.apply_edit("R1", "  ".to_string(), "https://new.example.net/x".to_string(), 50);
    assert_eq!(st.profiles[0].name, "example");
    assert_eq!(st.profiles[0].url, Some("https://new.example.net/x".to_string()));
    assert_eq!(st.profiles[0].updated, Some(50));
    let fetched = FetchResult {
        body: String::new(),
        name: Some("Remote Name".to_string()),
        extra: Some(SubscriptionInfo { upload: 1, download: 2, total: 3, expire: 4 }),
    };
    st.apply_import_fetch("R1", Some(&fetched), 60);
    assert_eq!(st.profiles[0].name, "Remote Name");
    assert_eq!(st.profiles[0].extra.map(|e| e.total), Some(3));
    assert_eq!(st.profiles[0].updated, Some(60));
    st.apply_import_fetch("R1", None, 70);
    assert_eq!(st.profiles[0].name, "Remote Name (fetch failed)");
    assert_eq!(st.profiles[0].updated, Some(60));
    st.apply_edit("nope", "X".to_string(), "Y".to_string(), 99);
    assert_eq!(st.profiles[0].updated, Some(60));
}
