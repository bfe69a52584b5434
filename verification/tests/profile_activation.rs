use clashr::connections::POLL_INTERVAL_MS as CONNECTIONS_POLL_MS;
use clashr::home::{
    country_display_from_upper, country_display_name, probe_controller_again, CONTROLLER_PROBE_TIMEOUT_MS,
    CONTROLLER_RETRY_DELAY_MS, CONTROLLER_WAIT_TRIES, POLL_INTERVAL_MS as HOME_POLL_MS,
};
use clashr::i18n::Locale;
use clashr::layout::{switch_refreshes, Page};
use clashr::manager::{geodata_copy_target, geodata_target_from};
use clashr::mihomo_api::ProxyNode;
use clashr::process::{core_args_with_parent, service_core_args};
use clashr::proxies::{icon_for_lowered_name, index_entry_from_parts, node_card_info, select_node};
use clashr::rules::{Rule, RulesBody, RulesState};
use clashr::runtime_config::{runtime_yaml_text, tun_enable_text};
use clashr::subscription::utf8_text_of;
use clashr::sysproxy::{windows_disable, windows_enable, windows_is_enabled, InternetSettings};

fn yaml(text: &str) -> serde_yaml::Value {
    serde_yaml::from_str(text).unwrap()
}

fn s(v: &str) -> serde_yaml::Value {
    serde_yaml::Value::String(v.to_string())
}

#[test]
fn activation_adds_only_missing_settings() {
    let out = runtime_yaml_text("mixed-port: 1234\nmode: global\nproxies: []\n").unwrap();
    let doc = yaml(&out);
    assert_eq!(doc["mixed-port"], serde_yaml::Value::Number(1234.into()));
    assert_eq!(doc["mode"], s("global"));
    assert_eq!(doc["external-controller"], s("127.0.0.1:9090"));
    assert_eq!(doc["log-level"], s("info"));
    assert_eq!(doc["allow-lan"], serde_yaml::Value::Bool(false));
    assert_eq!(doc["tun"]["enable"], serde_yaml::Value::Bool(false));
    assert_eq!(doc["tun"]["stack"], s("gvisor"));
    let keys: Vec<&str> = doc.as_mapping().unwrap().keys().map(|k| k.as_str().unwrap()).collect();
    assert_eq!(
        keys,
        vec!["mixed-port", "mode", "proxies", "external-controller", "log-level", "allow-lan", "tun"]
    );
}

#[test]
fn activation_of_unparsable_profile_is_all_defaults() {
    let out = runtime_yaml_text("key: [unclosed").unwrap();
    let doc = yaml(&out);
    let keys: Vec<&str> = doc.as_mapping().unwrap().keys().map(|k| k.as_str().unwrap()).collect();
    assert_eq!(keys, vec!["mixed-port", "external-controller", "mode", "log-level", "allow-lan", "tun"]);
    assert_eq!(doc["mixed-port"], serde_yaml::Value::Number(7890.into()));
}

#[test]
fn activation_keeps_a_document_that_is_not_a_mapping() {
    let out = runtime_yaml_text("- a\n- b\n").unwrap();
    assert_eq!(yaml(&out), yaml("- a\n- b\n"));
}

#[test]
fn activating_twice_adds_nothing_more() {
    let once = runtime_yaml_text("proxies: []\n").unwrap();
    let twice = runtime_yaml_text(&once).unwrap();
    assert_eq!(yaml(&once), yaml(&twice));
}

#[test]
fn tun_switch_is_persisted_only_with_a_tun_block() {
    let base = runtime_yaml_text("proxies: []\n").unwrap();
    let on = tun_enable_text(&base, true).unwrap();
    assert_eq!(yaml(&on)["tun"]["enable"], serde_yaml::Value::Bool(true));
    assert_eq!(yaml(&on)["tun"]["stack"], s("gvisor"));
    let off = tun_enable_text(&on, false).unwrap();
    assert_eq!(yaml(&off), yaml(&base));
    assert!(tun_enable_text("mode: rule\n", true).is_none());
    assert!(tun_enable_text("tun: true\n", true).is_none());
    assert!(tun_enable_text("- tun\n", true).is_none());
    assert!(tun_enable_text("tun: [unclosed", true).is_none());
}

#[test]
fn windows_proxy_reads_back_for_hosts_with_equals() {
    let mut st = InternetSettings { proxy_enable: None, proxy_server: None, proxy_override: None };
    windows_enable(&mut st, "a=b", 7890);
    assert!(windows_is_enabled(&st, "a=b", 7890));
    assert!(!windows_is_enabled(&st, "a=b", 7891));
    windows_enable(&mut st, "http=x", 7890);
    assert!(windows_is_enabled(&st, "http=x", 7890));
    // The stored `http=x:7890` also reads as a per-protocol value for `x:7890`.
    assert!(windows_is_enabled(&st, "x", 7890));
    windows_disable(&mut st);
    assert!(!windows_is_enabled(&st, "http=x", 7890));
}

#[test]
fn country_display_after_upper_casing() {
    assert_eq!(country_display_from_upper("US", &Locale::En), "United States");
    assert_eq!(country_display_from_upper("JP", &Locale::Zh), "日本");
    assert_eq!(country_display_from_upper("", &Locale::En), "—");
    assert_eq!(country_display_from_upper("ZZ", &Locale::En), "ZZ");
    assert_eq!(country_display_name(" us ", &Locale::En), "United States");
}

#[test]
fn icon_lookup_on_a_lower_cased_name() {
    let services = vec![("netflix".to_string(), "service-icons/Netflix.svg".to_string())];
    let countries: Vec<(String, String)> = Vec::new();
    assert_eq!(
        icon_for_lowered_name("Netflix HK", "netflix hk", &services, &countries),
        Some("service-icons/Netflix.svg".to_string())
    );
    assert_eq!(icon_for_lowered_name("Plain", "plain", &services, &countries), None);
}

#[test]
fn icon_index_entry_from_parts() {
    assert_eq!(
        index_entry_from_parts(true, Some("svg"), Some(("Netflix", "netflix")), false),
        Some(("netflix".to_string(), "service-icons/Netflix.svg".to_string()))
    );
    assert_eq!(
        index_entry_from_parts(true, Some("svg"), Some(("JP", "jp")), true),
        Some(("jp".to_string(), "service-icons/country/JP.svg".to_string()))
    );
    assert_eq!(index_entry_from_parts(true, Some("png"), Some(("a", "a")), false), None);
    assert_eq!(index_entry_from_parts(false, Some("svg"), Some(("a", "a")), false), None);
    assert_eq!(index_entry_from_parts(true, None, None, false), None);
}

#[test]
fn core_args_from_the_config_parent() {
    let args = core_args_with_parent(Some("/tmp/clashr"), "/tmp/clashr/config.yaml");
    assert_eq!(args, vec!["-d", "/tmp/clashr", "-f", "/tmp/clashr/config.yaml"]);
    assert_eq!(core_args_with_parent(None, "c.yaml"), vec!["-d", ".", "-f", "c.yaml"]);
    assert_eq!(service_core_args("/tmp/clashr/config.yaml"), args);
}

#[test]
fn geodata_target_from_extension_and_name() {
    assert_eq!(
        geodata_target_from(Some("mmdb"), Some("Country.mmdb")),
        Some("/tmp/clashr/Country.mmdb".to_string())
    );
    assert_eq!(geodata_target_from(Some("dat"), Some("geosite.dat")), Some("/tmp/clashr/geosite.dat".to_string()));
    assert_eq!(geodata_target_from(Some("txt"), Some("notes.txt")), None);
    assert_eq!(geodata_target_from(None, Some("README")), None);
    assert_eq!(geodata_copy_target("/data/geoip.metadb"), Some("/tmp/clashr/geoip.metadb".to_string()));
}

#[test]
fn utf8_text_of_decoded_bytes() {
    assert_eq!(utf8_text_of(Some(b"hi".to_vec())), Some("hi".to_string()));
    assert_eq!(utf8_text_of(Some(vec![0xff, 0xfe])), None);
    assert_eq!(utf8_text_of(None), None);
}

fn node(name: &str, kind: &str) -> ProxyNode {
    ProxyNode { name: name.to_string(), kind: kind.to_string(), now: None, all: Vec::new(), history: Vec::new(), udp: false }
}

#[test]
fn unique_names_stay_unique_after_selection() {
    let mut entries = vec![node("GLOBAL", "Selector"), node("HK", "Shadowsocks")];
    select_node(&mut entries, "GLOBAL", "HK");
    assert_eq!(entries[0].now, Some("HK".to_string()));
    assert_eq!(node_card_info(&entries, "HK").0, "Shadowsocks");
    assert_ne!(entries[0].name, entries[1].name);
}

#[test]
fn entering_proxies_refreshes_it() {
    assert!(switch_refreshes(Page::Home, Page::Proxies));
    assert!(!switch_refreshes(Page::Proxies, Page::Proxies));
    assert!(!switch_refreshes(Page::Proxies, Page::Rules));
}

fn rule(i: u32) -> Rule {
    Rule { index: i, rule_type: "DOMAIN".to_string(), payload: "example.com".to_string(), proxy: "DIRECT".to_string() }
}

#[test]
fn rules_page_states() {
    let mut st = RulesState::new();
    assert!(matches!(st.body(), RulesBody::Loading));
    assert_eq!(st.count_label(), "0 rules");
    st.finish(Ok(vec![rule(0), rule(1)]));
    assert!(matches!(st.body(), RulesBody::List));
    assert_eq!(st.count_label(), "2 rules");
    st.begin_refresh();
    assert!(matches!(st.body(), RulesBody::List));
    st.finish(Err("timeout".to_string()));
    match st.body() {
        RulesBody::Failed(m) => assert_eq!(m, "timeout"),
        other => panic!("unexpected {:?}", other),
    }
    assert_eq!(st.rules.len(), 2);
}

#[test]
fn polling_and_controller_wait() {
    assert_eq!(HOME_POLL_MS, 1000);
    assert_eq!(CONNECTIONS_POLL_MS, 2000);
    assert_eq!(CONTROLLER_WAIT_TRIES, 15);
    assert_eq!(CONTROLLER_PROBE_TIMEOUT_MS, 500);
    assert_eq!(CONTROLLER_RETRY_DELAY_MS, 1000);
    assert!(probe_controller_again(1, false));
    assert!(!probe_controller_again(1, true));
    assert!(probe_controller_again(14, false));
    assert!(!probe_controller_again(15, false));
}
