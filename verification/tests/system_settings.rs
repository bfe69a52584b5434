use clashr::assets::CombinedAssets;
use clashr::clash_api::ClashApi;
use clashr::config::{AppConfig, AppState};
use clashr::paths::{
    data_dir, is_app_bundle, join, log_dir, migration_plan, mihomo_binary_name, mihomo_candidates,
    profile_yaml_path, profiles_dir, resources_candidate, runtime_yaml_path, service_binary_candidates,
};
use clashr::runtime_config::{
    default_entry, default_key, defaults_flow_text, missing_runtime_defaults, runtime_defaults, strip_verbatim_prefix,
    RuntimeDefault,
};
use clashr::sysproxy::{
    active_services, default_bypass_list, disable, enable, error_message, is_enabled, macos_disable_commands,
    macos_enable_commands, web_proxy_matches, windows_bypass, windows_proxy_server, windows_server_matches,
    SysProxyError,
};
use clashr::theming::{
    init, is_dark, is_theme_file, sorted_theme_names, startup_theme, themes_dir, toggle_theme, Preferences, ThemeMode,
};

fn strings(v: &[&str]) -> Vec<String> {
    v.iter().map(|s| s.to_string()).collect()
}

#[test]
fn join_like_pathbuf() {
    assert_eq!(join("/a", "b"), "/a/b");
    assert_eq!(join("/a/", "b"), "/a/b");
    assert_eq!(join("", "b"), "b");
    assert_eq!(join("/a", "/etc/x"), "/etc/x");
}

#[test]
fn data_and_log_dirs() {
    assert!(is_app_bundle("/Applications/ClashR.app/Contents/MacOS/clashr"));
    assert!(!is_app_bundle("/home/u/clashr/target/release/clashr"));
    assert_eq!(data_dir(true, &Some("/Users/u/Library/Application Support".to_string()), &None), "/Users/u/Library/Application Support/ClashR");
    assert_eq!(data_dir(false, &None, &Some("/work".to_string())), "/work/data");
    assert_eq!(data_dir(false, &None, &None), "./data");
    assert_eq!(log_dir(true, &Some("/Users/u".to_string()), &None), "/Users/u/Library/Logs/ClashR");
    assert_eq!(log_dir(false, &None, &Some("/work".to_string())), "/work/logs");
    assert_eq!(profiles_dir("/work/data"), "/work/data/profiles");
    assert_eq!(profile_yaml_path("/work/data/profiles", "R0000abcd"), "/work/data/profiles/R0000abcd.yaml");
    assert_eq!(runtime_yaml_path("/work/data"), "/work/data/runtime.yaml");
    assert_eq!(resources_candidate("/A.app/Contents/MacOS"), "/A.app/Contents/MacOS/../Resources");
}

#[test]
fn binary_search_order() {
    assert_eq!(mihomo_binary_name(true), "mihomo.exe");
    assert_eq!(
        mihomo_candidates(&None, &Some("/x".to_string()), &Some("/w".to_string()), &strings(&["/usr/bin"]), "mihomo"),
        strings(&["/x/mihomo", "/x/../Resources/bin/mihomo", "/w/bin/mihomo", "/w/mihomo", "/usr/bin/mihomo"])
    );
    assert_eq!(
        service_binary_candidates(&Some("/o/s".to_string()), &None, &Some("/w".to_string())),
        strings(&["/o/s", "/w/bin/clashr-service", "/w/target/release/clashr-service", "/w/target/debug/clashr-service"])
    );
}

#[test]
fn migration_into_bundle() {
    assert_eq!(
        migration_plan(true, true, "/D", &Some("/W".to_string())),
        vec![
            ("/W/data/profiles".to_string(), "/D/profiles".to_string()),
            ("/W/data/runtime.yaml".to_string(), "/D/runtime.yaml".to_string()),
        ]
    );
    assert!(migration_plan(true, false, "/D", &Some("/W".to_string())).is_empty());
    assert!(migration_plan(false, true, "/D", &Some("/W".to_string())).is_empty());
}

#[test]
fn runtime_defaults_fill_only_missing_keys() {
    assert_eq!(runtime_defaults().len(), 6);
    let keys = strings(&["proxies", "mode", "tun", "mixed-port"]);
    assert_eq!(
        missing_runtime_defaults(&keys),
        vec![RuntimeDefault::ExternalController, RuntimeDefault::LogLevel, RuntimeDefault::AllowLan]
    );
    let all: Vec<RuntimeDefault> = missing_runtime_defaults(&Vec::new());
    assert_eq!(all, runtime_defaults());
    let mut completed = keys.clone();
    for d in missing_runtime_defaults(&keys) {
        completed.push(default_key(d).to_string());
    }
    assert!(missing_runtime_defaults(&completed).is_empty());
}

#[test]
fn runtime_default_values() {
    assert_eq!(default_key(RuntimeDefault::MixedPort), "mixed-port");
    assert_eq!(default_entry(RuntimeDefault::MixedPort), "\"mixed-port\": 7890");
    assert_eq!(default_entry(RuntimeDefault::ExternalController), "\"external-controller\": \"127.0.0.1:9090\"");
    assert_eq!(default_entry(RuntimeDefault::AllowLan), "\"allow-lan\": false");
    assert_eq!(defaults_flow_text(&Vec::new()), "{}");
    assert_eq!(
        defaults_flow_text(&vec![RuntimeDefault::Mode, RuntimeDefault::LogLevel]),
        "{\"mode\": \"rule\", \"log-level\": \"info\"}"
    );
    let tun: serde_yaml::Value = serde_yaml::from_str(&defaults_flow_text(&vec![RuntimeDefault::Tun])).unwrap();
    let block = &tun["tun"];
    assert_eq!(block["enable"], serde_yaml::Value::Bool(false));
    assert_eq!(block["stack"], serde_yaml::Value::String("gvisor".into()));
    assert_eq!(block["dns-hijack"][0], serde_yaml::Value::String("any:53".into()));
    assert_eq!(block["auto-route"], serde_yaml::Value::Bool(true));
    assert_eq!(block["auto-detect-interface"], serde_yaml::Value::Bool(true));
}

#[test]
fn verbatim_prefix_is_stripped() {
    assert_eq!(strip_verbatim_prefix("\\\\?\\C:\\data\\runtime.yaml"), "C:\\data\\runtime.yaml");
    assert_eq!(strip_verbatim_prefix("C:\\data"), "C:\\data");
}

#[test]
fn sysproxy_unsupported_here() {
    assert_eq!(enable("127.0.0.1", 7890), Err(SysProxyError::Unsupported));
    assert_eq!(disable(), Err(SysProxyError::Unsupported));
    assert!(!is_enabled("127.0.0.1", 7890));
    assert_eq!(error_message(SysProxyError::Unsupported), "system proxy toggle is not implemented on this platform yet");
}

#[test]
fn network_services_listing() {
    let listing = "An asterisk (*) denotes that a network service is disabled.\nWi-Fi\n*Bluetooth PAN\n  Thunderbolt Bridge  \n\nUSB LAN\r\n";
    assert_eq!(active_services(listing), strings(&["Wi-Fi", "Thunderbolt Bridge", "USB LAN"]));
}

#[test]
fn web_proxy_output() {
    let on = "Enabled: Yes\nServer: 127.0.0.1\nPort: 7890\nAuthenticated Proxy Enabled: 0\n";
    assert!(web_proxy_matches(on, "127.0.0.1", 7890));
    assert!(!web_proxy_matches(on, "127.0.0.1", 7891));
    assert!(!web_proxy_matches("Enabled: No\nServer: 127.0.0.1\nPort: 7890\n", "127.0.0.1", 7890));
}

#[test]
fn macos_commands() {
    let c = macos_enable_commands("Wi-Fi", "127.0.0.1", 7890);
    assert_eq!(c.len(), 7);
    assert_eq!(c[0], strings(&["-setwebproxy", "Wi-Fi", "127.0.0.1", "7890"]));
    assert_eq!(c[5], strings(&["-setsocksfirewallproxystate", "Wi-Fi", "on"]));
    let mut bypass = strings(&["-setproxybypassdomains", "Wi-Fi"]);
    for b in default_bypass_list() {
        bypass.push(b.to_string());
    }
    assert_eq!(c[6], bypass);
    assert_eq!(macos_disable_commands("Wi-Fi")[1], strings(&["-setsecurewebproxystate", "Wi-Fi", "off"]));
}

#[test]
fn windows_values() {
    assert_eq!(windows_proxy_server("127.0.0.1", 7890), "127.0.0.1:7890");
    assert_eq!(
        windows_bypass(),
        "127.0.0.1;192.168.0.0/16;10.0.0.0/8;172.16.0.0/12;localhost;*.local;*.crashlytics.com;<local>"
    );
    assert!(windows_server_matches("127.0.0.1:7890", "127.0.0.1", 7890));
    assert!(windows_server_matches("HTTP=127.0.0.1:7890;https=127.0.0.1:7890", "127.0.0.1", 7890));
    assert!(windows_server_matches("socks=1.2.3.4:1; 127.0.0.1:7890 ", "127.0.0.1", 7890));
    assert!(!windows_server_matches("http=127.0.0.1:7891", "127.0.0.1", 7890));
    assert!(!windows_server_matches("127.0.0.1:789", "127.0.0.1", 7890));
}

#[test]
fn preferences_and_themes() {
    let p = Preferences::default();
    assert!(p.theme_name.is_none() && !p.system_proxy_enabled && p.language.is_none());
    assert_eq!(Preferences::path("/D"), "/D/preferences.json");
    assert_eq!(themes_dir("/R"), "/R/themes");
    assert!(is_theme_file("/R/themes/nord.json"));
    assert!(!is_theme_file("/R/themes/nord.json.bak"));
    assert!(!is_theme_file("/R/themes/.json"));
    assert_eq!(sorted_theme_names(strings(&["b", "Ayu", "a"])), strings(&["Ayu", "a", "b"]));
    let saved = Preferences { theme_name: Some("Nord".to_string()), system_proxy_enabled: false, language: None };
    assert_eq!(startup_theme(&saved, &strings(&["Ayu", "Nord"])), Some("Nord".to_string()));
    assert_eq!(startup_theme(&saved, &strings(&["Ayu"])), None);
    assert_eq!(startup_theme(&p, &strings(&["Ayu"])), None);
}

#[test]
fn asset_routing() {
    let a = CombinedAssets::new(Some("/w".to_string()));
    assert_eq!(a.icons_dir, "/w/icons");
    assert_eq!(a.disk_file("service-icons/github.svg"), Some("/w/icons/github.svg".to_string()));
    assert_eq!(a.disk_file("service-icons/country/hk.svg"), Some("/w/icons/country/hk.svg".to_string()));
    assert_eq!(a.disk_file("icons/app/app-icon-256.png"), Some("/w/icons/app/app-icon-256.png".to_string()));
    assert_eq!(a.disk_file("icons/arrow.svg"), Some("/w/icons/arrow.svg".to_string()));
    assert_eq!(a.disk_file("fonts/x.ttf"), None);
    assert_eq!(CombinedAssets::new(None).icons_dir, "./icons");
}

#[test]
fn settings_defaults() {
    let c = AppConfig::default();
    assert_eq!(c.clash_core.mixed_port, 7890);
    assert_eq!(c.clash_core.external_controller, "127.0.0.1:9090");
    assert_eq!(c.appearance.theme, "dark");
    assert_eq!(c.appearance.language, "en");
    assert!(!c.system.tun_mode);
    assert_eq!(AppConfig::config_dir_from(&Some("/home/u/.config".to_string())), "/home/u/.config/clashr");
    assert!(AppConfig::config_path().ends_with("clashr/config.json"));
    let loaded = AppConfig::from_loaded(None);
    assert_eq!(loaded.clash_core.mixed_port, 7890);
    let st = AppState::new(loaded);
    assert_eq!(st.config.appearance.language, "en");
}

#[test]
fn controller_client() {
    let api = ClashApi::new("http://127.0.0.1:9090".to_string(), Some("s3cret".to_string()));
    assert_eq!(api.endpoint("/proxies"), "http://127.0.0.1:9090/proxies");
    assert_eq!(api.authorization(), Some("Bearer s3cret".to_string()));
    assert_eq!(ClashApi::new("http://h".to_string(), None).authorization(), None);
}

#[test]
fn theme_mode_toggles() {
    let mut th = init();
    assert!(is_dark(&th));
    toggle_theme(&mut th);
    assert_eq!(th.mode, ThemeMode::Light);
    assert!(!is_dark(&th));
    toggle_theme(&mut th);
    assert_eq!(th.mode, ThemeMode::Dark);
}
