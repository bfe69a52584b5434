use clashr::home::{ip_card, ip_info_endpoints, IpInfo};
use clashr::i18n::Locale;
use clashr::home::LatencyLevel;
use clashr::manager::{reload_follow_up, ReloadFollowUp};
use clashr::mihomo_api::{configs_url, DelaySample, ProxyNode};
use clashr::proxies::{apply_delay_results, delay_badge, node_card_info};
use clashr::sysproxy::{windows_disable, windows_enable, windows_is_enabled, InternetSettings};

fn info() -> IpInfo {
    IpInfo { ip: None, city: None, region: None, country: None, country_code: None, org: None, timezone: None }
}

fn s(x: &str) -> Option<String> {
    Some(x.to_string())
}

#[test]
fn ip_card_prefers_country_code() {
    let i = IpInfo { ip: s("1.2.3.4"), city: s("Tokyo"), region: s("Tokyo"), country: s("Japan"), country_code: s(" jp "), org: s("AS1 X"), timezone: s("Asia/Tokyo") };
    let c = ip_card(&i, true, &Locale::En, "/app");
    assert_eq!(c.iso2, "JP");
    assert_eq!(c.flag, Some("/app/icons/country/jp.svg".to_string()));
    assert_eq!(c.country_label, "Japan");
    assert_eq!(c.location, "Tokyo");
    assert_eq!(c.ip_text, "1.2.3.4");
    assert_eq!(c.org, "AS1 X");
    assert_eq!(c.timezone, "Asia/Tokyo");
}

#[test]
fn ip_card_uses_two_letter_country_and_hides_ip() {
    let i = IpInfo { ip: s("1.2.3.4"), city: s("Kowloon"), region: s("HK"), country: s("hk"), ..info() };
    let c = ip_card(&i, false, &Locale::Zh, "/app");
    assert_eq!(c.iso2, "HK");
    assert_eq!(c.country_label, "香港");
    assert_eq!(c.location, "Kowloon, HK");
    assert_eq!(c.ip_text, "••••••••");
    assert_eq!(c.org, "—");
    assert_eq!(c.timezone, "—");
}

#[test]
fn ip_card_without_code() {
    let i = IpInfo { country: s("United States"), region: s("CA"), ..info() };
    let c = ip_card(&i, true, &Locale::En, "/app");
    assert_eq!(c.iso2, "");
    assert_eq!(c.flag, None);
    assert_eq!(c.country_label, "United States");
    assert_eq!(c.location, "CA");
    assert_eq!(c.ip_text, "—");
    let blank = ip_card(&IpInfo { country: s("  "), ..info() }, true, &Locale::En, "/app");
    assert_eq!(blank.country_label, "—");
    assert_eq!(blank.location, "—");
}

#[test]
fn ip_lookup_order() {
    assert_eq!(ip_info_endpoints(), vec!["https://api.ip.sb/geoip", "https://ipapi.co/json/", "https://ipinfo.io/json"]);
}

#[test]
fn reload_falls_back_to_restart() {
    assert_eq!(reload_follow_up(Some(204)), ReloadFollowUp::Done);
    assert_eq!(reload_follow_up(Some(200)), ReloadFollowUp::Done);
    assert_eq!(reload_follow_up(Some(300)), ReloadFollowUp::Restart);
    assert_eq!(reload_follow_up(Some(400)), ReloadFollowUp::Restart);
    assert_eq!(reload_follow_up(None), ReloadFollowUp::Restart);
    assert_eq!(configs_url(), "http://127.0.0.1:9090/configs");
}

#[test]
fn node_card_badge_and_kind() {
    assert_eq!(delay_badge(Some(0)), ("—".to_string(), Some(LatencyLevel::Failed)));
    assert_eq!(delay_badge(Some(87)), ("87 ms".to_string(), Some(LatencyLevel::Fast)));
    assert_eq!(delay_badge(Some(450)), ("450 ms".to_string(), Some(LatencyLevel::Slow)));
    assert_eq!(delay_badge(None), (String::new(), None));
    let n = ProxyNode {
        name: "a".to_string(),
        kind: "Vmess".to_string(),
        now: None,
        all: Vec::new(),
        history: vec![DelaySample { time: "t".to_string(), delay: 120 }],
        udp: true,
    };
    let entries = vec![n];
    assert_eq!(node_card_info(&entries, "a"), ("Vmess".to_string(), Some(120)));
    assert_eq!(node_card_info(&entries, "b"), ("?".to_string(), None));
}

#[test]
fn delay_samples_keep_old_and_have_empty_time() {
    let mut entries = vec![ProxyNode {
        name: "a".to_string(),
        kind: "Vmess".to_string(),
        now: None,
        all: Vec::new(),
        history: vec![DelaySample { time: "2024".to_string(), delay: 5 }],
        udp: false,
    }];
    apply_delay_results(&mut entries, &vec![("a".to_string(), 9)]);
    assert_eq!(entries[0].history.len(), 2);
    assert_eq!(entries[0].history[0].time, "2024");
    assert_eq!(entries[0].history[0].delay, 5);
    assert_eq!(entries[0].history[1].time, "");
    assert_eq!(entries[0].history[1].delay, 9);
}

#[test]
fn windows_proxy_settings() {
    let mut st = InternetSettings { proxy_enable: None, proxy_server: None, proxy_override: None };
    assert!(!windows_is_enabled(&st, "127.0.0.1", 7890));
    windows_enable(&mut st, "127.0.0.1", 7890);
    assert_eq!(st.proxy_enable, Some(1));
    assert_eq!(st.proxy_server, Some("127.0.0.1:7890".to_string()));
    assert!(st.proxy_override.as_deref().unwrap().ends_with(";<local>"));
    assert!(windows_is_enabled(&st, "127.0.0.1", 7890));
    assert!(!windows_is_enabled(&st, "127.0.0.1", 7891));
    windows_disable(&mut st);
    assert!(!windows_is_enabled(&st, "127.0.0.1", 7890));
    assert_eq!(st.proxy_server, Some("127.0.0.1:7890".to_string()));
}
