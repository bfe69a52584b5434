use clashr::connections::{row_of, ConnMetadata, Connection};
use clashr::home::{
    begin_site_test, country_display_name, country_flag_file, default_sites, finish_site_test, latency_level,
    lookup_country_name, service_icon_file, set_network_mode, Controls, LatencyLevel, RawStats, TestState,
    Toggle, TrafficStats, TRAFFIC_SAMPLE_LIMIT,
};
use clashr::i18n::{available_locales, current_locale, set_locale, t, Locale};
use clashr::layout::{status_label, Page, StatusTone};
use clashr::logs::{level_label, level_tone, LevelTone, LogEntry, LogsState, MAX_LOGS};
use clashr::manager::CoreStatus;
use clashr::mihomo_api::{delay_test_url, proxies_url, select_proxy_url, DelaySample, ProxyNode};
use clashr::proxies::{
    apply_delay_results, begin_delay_test, expand_first_on_load, build_icon_index, delay_level, flatten_rows, icon_for_group,
    icon_for_node, list_groups, select_node, service_icon_for_name, GroupIcon, NameSet, NodeIcon, Row,
};
use clashr::tray::{tray_event_for, TrayEvent};

fn node(name: &str, kind: &str, all: &[&str]) -> ProxyNode {
    ProxyNode {
        name: name.to_string(),
        kind: kind.to_string(),
        now: None,
        all: all.iter().map(|s| s.to_string()).collect(),
        history: Vec::new(),
        udp: false,
    }
}

#[test]
fn translations_fall_back_to_english() {
    let mut loc = Locale::En;
    assert_eq!(t(&loc, "nav.home"), "Home");
    set_locale(&mut loc, "zh-CN");
    assert_eq!(loc, Locale::Zh);
    assert_eq!(current_locale(&loc), "zh");
    assert_eq!(t(&loc, "nav.home"), "主页");
    assert_eq!(t(&loc, "no.such.key"), "???");
    set_locale(&mut loc, "fr");
    assert_eq!(loc, Locale::En);
    assert_eq!(available_locales(), vec![("en", "English"), ("zh", "中文")]);
}

#[test]
fn pages_and_labels() {
    let all = Page::all();
    assert_eq!(all.len(), 7);
    assert_eq!(all[0], Page::Home);
    assert_eq!(all[6], Page::Settings);
    assert_eq!(Page::Logs.label_key(), "nav.logs");
    assert_eq!(Page::Proxies.label(&Locale::Zh), "代理");
    assert_eq!(status_label(&CoreStatus::Running { pid: 1 }, &Locale::En), ("Running", StatusTone::Good));
    assert_eq!(status_label(&CoreStatus::Failed { reason: "x".to_string() }, &Locale::En).1, StatusTone::Bad);
    assert_eq!(status_label(&CoreStatus::Stopping, &Locale::En).1, StatusTone::Busy);
}

#[test]
fn traffic_speed_from_totals() {
    let mut s = TrafficStats::new();
    s.ingest_stats(RawStats { upload_total: 1000, download_total: 5000, connections_count: 3, memory_inuse: 10 });
    assert_eq!(s.cur_up_speed, 0);
    assert_eq!(s.cur_down_speed, 0);
    s.ingest_stats(RawStats { upload_total: 1500, download_total: 4000, connections_count: 4, memory_inuse: 11 });
    assert_eq!(s.cur_up_speed, 500);
    assert_eq!(s.cur_down_speed, 0);
    assert_eq!(s.cur_connections, 4);
    assert_eq!(s.sample_count(), 2);
    let last = s.sample(1);
    assert_eq!((last.up, last.down), (500, 0));
}

#[test]
fn traffic_chart_keeps_last_samples() {
    let mut s = TrafficStats::new();
    for i in 0..(TRAFFIC_SAMPLE_LIMIT as u64 + 5) {
        s.ingest_stats(RawStats { upload_total: i * 10, download_total: 0, connections_count: 0, memory_inuse: 0 });
    }
    assert_eq!(s.sample_count(), TRAFFIC_SAMPLE_LIMIT);
    assert_eq!(s.sample(TRAFFIC_SAMPLE_LIMIT - 1).up, 10);
}

#[test]
fn network_mode_switches() {
    assert_eq!(set_network_mode("off", true, true), vec![Toggle::Tun(false), Toggle::SystemProxy(false)]);
    assert_eq!(set_network_mode("sysproxy", true, false), vec![Toggle::Tun(false), Toggle::SystemProxy(true)]);
    assert_eq!(set_network_mode("tun", true, true), vec![Toggle::SystemProxy(false)]);
    assert_eq!(set_network_mode("tun", false, false), vec![Toggle::Tun(true)]);
    assert_eq!(set_network_mode("other", true, true), Vec::<Toggle>::new());
}

#[test]
fn controls_update_and_revert() {
    let mut c = Controls::new(true);
    assert!(c.system_proxy_on);
    assert!(c.set_mode("rule"));
    assert!(!c.set_mode("rule"));
    assert_eq!(c.mode, Some("rule".to_string()));
    c.mode_change_failed();
    assert_eq!(c.mode, None);
    assert!(c.set_global_node("HK 01"));
    assert!(!c.set_global_node("HK 01"));
    c.flip(Toggle::Tun(true));
    assert!(c.tun_enabled);
    c.flip_failed(Toggle::Tun(true));
    assert!(!c.tun_enabled);
    c.flip(Toggle::SystemProxy(false));
    assert!(!c.system_proxy_on);
    c.apply_poll("global".to_string(), Some("JP".to_string()), true);
    assert_eq!(c.mode, Some("global".to_string()));
    assert_eq!(c.global_now, Some("JP".to_string()));
    assert!(c.tun_enabled);
}

#[test]
fn site_tests() {
    let mut sites = default_sites();
    assert_eq!(sites.len(), 4);
    assert_eq!(sites[1].name, "GitHub");
    assert_eq!(sites[0].icon_stem, Some("苹果"));
    assert_eq!(begin_site_test(&mut sites, 2), Some("https://www.google.com"));
    assert_eq!(sites[2].state, TestState::Testing);
    finish_site_test(&mut sites, 2, Some(120));
    assert_eq!(sites[2].state, TestState::Measured(120));
    finish_site_test(&mut sites, 3, None);
    assert_eq!(sites[3].state, TestState::Failed);
    assert_eq!(begin_site_test(&mut sites, 9), None);
}

#[test]
fn latency_grades() {
    assert_eq!(latency_level(99), LatencyLevel::Fast);
    assert_eq!(latency_level(100), LatencyLevel::Medium);
    assert_eq!(latency_level(300), LatencyLevel::Slow);
    assert_eq!(delay_level(0), LatencyLevel::Failed);
    assert_eq!(delay_level(300), LatencyLevel::Medium);
    assert_eq!(delay_level(301), LatencyLevel::Slow);
}

#[test]
fn country_names() {
    assert_eq!(lookup_country_name("US", false), Some("United States"));
    assert_eq!(lookup_country_name("JP", true), Some("日本"));
    assert_eq!(lookup_country_name("ZZ", false), None);
    assert_eq!(country_display_name(" hk ", &Locale::Zh), "香港");
    assert_eq!(country_display_name("cn", &Locale::En), "China");
    assert_eq!(country_display_name("zz", &Locale::En), "ZZ");
    assert_eq!(country_display_name("  ", &Locale::En), "—");
}

#[test]
fn icon_files() {
    assert_eq!(service_icon_file("/app", "谷歌"), "/app/icons/谷歌.svg");
    assert_eq!(country_flag_file("/app", " US "), Some("/app/icons/country/us.svg".to_string()));
    assert_eq!(country_flag_file("/app", "USA"), None);
    assert_eq!(country_flag_file("/app", "é"), Some("/app/icons/country/é.svg".to_string()));
}

#[test]
fn logs_keep_last_five_hundred() {
    let mut st = LogsState::new();
    assert!(st.auto_scroll());
    let batch: Vec<LogEntry> = (0..(MAX_LOGS + 3))
        .map(|i| LogEntry { level: "info".to_string(), payload: format!("line {}", i) })
        .collect();
    st.ingest(batch);
    assert_eq!(st.len(), MAX_LOGS);
    assert_eq!(st.line(0).payload, "line 3");
    assert_eq!(st.line(MAX_LOGS - 1).payload, format!("line {}", MAX_LOGS + 2));
    assert_eq!(st.count_text(), "500 lines");
    st.toggle_auto_scroll();
    assert!(!st.auto_scroll());
    st.clear();
    assert_eq!(st.len(), 0);
    assert!(!st.auto_scroll());
}

#[test]
fn log_levels() {
    assert_eq!(level_tone("error"), LevelTone::Error);
    assert_eq!(level_tone("warning"), LevelTone::Warning);
    assert_eq!(level_tone("info"), LevelTone::Info);
    assert_eq!(level_tone("debug"), LevelTone::Plain);
    assert_eq!(level_label("warning"), "WARNING");
}

#[test]
fn connection_row_text() {
    let c = Connection {
        id: "1".to_string(),
        metadata: ConnMetadata {
            network: "tcp".to_string(),
            conn_type: "HTTP".to_string(),
            host: "".to_string(),
            destination_port: "443".to_string(),
            process: "curl".to_string(),
            source_ip: "10.0.0.2".to_string(),
            source_port: "5555".to_string(),
        },
        upload: 1,
        download: 2,
        start: "".to_string(),
        chains: vec!["HK".to_string(), "Proxy".to_string()],
        rule: "DOMAIN-SUFFIX".to_string(),
        rule_payload: "google.com".to_string(),
    };
    let r = row_of(&c);
    assert_eq!(r.host, "10.0.0.2:443");
    assert_eq!(r.network, "tcp/HTTP");
    assert_eq!(r.process, "curl");
    assert_eq!(r.rule, "DOMAIN-SUFFIX (google.com)");
    assert_eq!(r.chain, "HK");
    let mut c2 = c.clone();
    c2.metadata.host = "example.com".to_string();
    c2.rule_payload = String::new();
    c2.chains.clear();
    let r2 = row_of(&c2);
    assert_eq!(r2.host, "example.com:443");
    assert_eq!(r2.rule, "DOMAIN-SUFFIX");
    assert_eq!(r2.chain, "");
}

#[test]
fn groups_are_listed_sorted() {
    let ps = vec![
        node("Zeta", "Selector", &["a"]),
        node("a-node", "Shadowsocks", &[]),
        node("Auto", "URLTest", &["a"]),
        node("GLOBAL", "Selector", &["Zeta"]),
    ];
    let gs = list_groups(ps);
    let names: Vec<&str> = gs.iter().map(|g| g.name.as_str()).collect();
    assert_eq!(names, vec!["Auto", "GLOBAL", "Zeta"]);
}

#[test]
fn expanded_groups_toggle() {
    let mut s = NameSet::new();
    assert!(!s.contains("G"));
    s.toggle("G".to_string());
    assert!(s.contains("G"));
    s.toggle("G".to_string());
    assert!(!s.contains("G"));
}

#[test]
fn delay_test_bookkeeping() {
    let groups = vec![node("G", "Selector", &["a", "b"]), node("E", "Selector", &[])];
    let mut testing = NameSet::new();
    assert_eq!(begin_delay_test(&groups, &mut testing, "G"), Some(vec!["a".to_string(), "b".to_string()]));
    assert!(testing.contains("G"));
    assert_eq!(begin_delay_test(&groups, &mut testing, "G"), None);
    assert_eq!(begin_delay_test(&groups, &mut testing, "E"), None);
    assert!(!testing.contains("E"));
    assert_eq!(begin_delay_test(&groups, &mut testing, "missing"), None);
}

#[test]
fn rows_of_expanded_groups() {
    let groups = vec![node("A", "Selector", &["1", "2", "3", "4", "5"]), node("B", "Selector", &["x"])];
    let mut expanded = NameSet::new();
    expanded.toggle("A".to_string());
    let rows = flatten_rows(&groups, &expanded, 2);
    assert_eq!(
        rows,
        vec![
            Row::GroupHeader { group_idx: 0 },
            Row::NodeCardRow { group_idx: 0, start: 0, count: 2 },
            Row::NodeCardRow { group_idx: 0, start: 2, count: 2 },
            Row::NodeCardRow { group_idx: 0, start: 4, count: 1 },
            Row::GroupHeader { group_idx: 1 },
        ]
    );
}

#[test]
fn node_selection_and_delays() {
    let mut entries = vec![node("G", "Selector", &["a", "b"]), node("a", "Vmess", &[])];
    select_node(&mut entries, "G", "b");
    assert_eq!(entries[0].now, Some("b".to_string()));
    assert_eq!(entries[1].now, None);
    apply_delay_results(&mut entries, &vec![("a".to_string(), 88), ("zzz".to_string(), 1), ("a".to_string(), 0)]);
    let delays: Vec<u32> = entries[1].history.iter().map(|s: &DelaySample| s.delay).collect();
    assert_eq!(delays, vec![88, 0]);
    assert_eq!(entries[1].last_delay(), Some(0));
    assert!(entries[0].history.is_empty());
    assert!(entries[0].is_group());
    assert!(!entries[1].is_group());
}

#[test]
fn group_and_node_icons() {
    assert_eq!(icon_for_group("Selector"), GroupIcon::CircleUser);
    assert_eq!(icon_for_group("LoadBalance"), GroupIcon::ChartPie);
    assert_eq!(icon_for_group("Fallback"), GroupIcon::Heart);
    assert_eq!(icon_for_group("Other"), GroupIcon::Folder);
    assert_eq!(icon_for_node("DIRECT"), NodeIcon::ArrowRight);
    assert_eq!(icon_for_node("Reject"), NodeIcon::CircleX);
    assert_eq!(icon_for_node("Trojan"), NodeIcon::Globe);
}

#[test]
fn icon_index_and_lookup() {
    let files = vec![
        ("/app/icons/GitHub.svg".to_string(), true),
        ("/app/icons/谷歌.svg".to_string(), true),
        ("/app/icons/readme.txt".to_string(), true),
        ("/app/icons/country".to_string(), false),
        ("/app/icons/github.svg".to_string(), true),
    ];
    let idx = build_icon_index(&files, false);
    assert_eq!(
        idx,
        vec![
            ("github".to_string(), "service-icons/github.svg".to_string()),
            ("谷歌".to_string(), "service-icons/谷歌.svg".to_string()),
        ]
    );
    let flags = build_icon_index(&vec![("/app/icons/country/HK.svg".to_string(), true)], true);
    assert_eq!(flags, vec![("hk".to_string(), "service-icons/country/HK.svg".to_string())]);
    assert_eq!(service_icon_for_name("My GitHub Mirror", &idx, &flags), Some("service-icons/github.svg".to_string()));
    assert_eq!(service_icon_for_name("YouTube 专线", &idx, &flags), Some("service-icons/谷歌.svg".to_string()));
    assert_eq!(service_icon_for_name("香港 01", &idx, &flags), Some("service-icons/country/HK.svg".to_string()));
    assert_eq!(service_icon_for_name("nothing here", &idx, &flags), None);
}

#[test]
fn controller_urls() {
    assert_eq!(proxies_url(), "http://127.0.0.1:9090/proxies");
    assert_eq!(select_proxy_url("节点 A"), "http://127.0.0.1:9090/proxies/%E8%8A%82%E7%82%B9%20A");
    assert_eq!(
        delay_test_url("HK-1", "http://www.gstatic.com/generate_204", 5000),
        "http://127.0.0.1:9090/proxies/HK-1/delay?url=http%3A%2F%2Fwww.gstatic.com%2Fgenerate_204&timeout=5000"
    );
}

#[test]
fn tray_menu_events() {
    assert_eq!(tray_event_for("1", "1", "2"), Some(TrayEvent::Show));
    assert_eq!(tray_event_for("2", "1", "2"), Some(TrayEvent::Quit));
    assert_eq!(tray_event_for("3", "1", "2"), None);
}

#[test]
fn first_group_expands_on_first_load() {
    let groups = vec![node("A", "Selector", &["x"]), node("B", "Selector", &["y"])];
    let mut expanded = NameSet::new();
    expand_first_on_load(&mut expanded, &groups);
    assert!(expanded.contains("A"));
    assert!(!expanded.contains("B"));
    expanded.toggle("A".to_string());
    expanded.toggle("B".to_string());
    expand_first_on_load(&mut expanded, &groups);
    assert!(!expanded.contains("A"));
    assert!(expanded.contains("B"));
    let mut none = NameSet::new();
    expand_first_on_load(&mut none, &Vec::new());
    assert!(!none.contains("A"));
}
