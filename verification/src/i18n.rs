//! Minimal localisation: English and Chinese strings looked up by key,
//! with English as the fallback for keys a locale lacks.

use vstd::prelude::*;

use crate::text::str_eq;

verus! {

/// The supported UI languages.
#[derive(Debug, Clone, Copy, PartialEq, Eq, Structural)]
pub enum Locale {
    En,
    Zh,
}

/// The language a locale name selects: the Chinese spellings `zh`,
/// `zh-CN` and `zh-Hans` select Chinese, anything else English.
pub open spec fn locale_for(name: Seq<char>) -> Locale {
    if name == "zh"@ || name == "zh-CN"@ || name == "zh-Hans"@ {
        Locale::Zh
    } else {
        Locale::En
    }
}

/// The code of a locale.
pub open spec fn locale_code(l: Locale) -> Seq<char> {
    match l {
        Locale::En => "en"@,
        Locale::Zh => "zh"@,
    }
}

/// Sets the current locale from a locale name.
pub fn set_locale(current: &mut Locale, locale: &str)
    ensures
        *final(current) == locale_for(locale@),
{
    if str_eq(locale, "zh") || str_eq(locale, "zh-CN") || str_eq(locale, "zh-Hans") {
        *current = Locale::Zh;
    } else {
        *current = Locale::En;
    }
}

/// The code of the current locale (`"en"` or `"zh"`).
pub fn current_locale(current: &Locale) -> (r: &'static str)
    ensures
        r@ == locale_code(*current),
{
    match current {
        Locale::En => "en",
        Locale::Zh => "zh",
    }
}

/// The locales offered in the settings, with their display names.
pub fn available_locales() -> (r: Vec<(&'static str, &'static str)>)
    ensures
        r@.len() == 2,
        r@[0].0@ == "en"@ && r@[0].1@ == "English"@,
        r@[1].0@ == "zh"@ && r@[1].1@ == "中文"@,
{
    vec![("en", "English"), ("zh", "中文")]
}

/// The view of a table of string pairs.
pub open spec fn table_view(t: Seq<(&'static str, &'static str)>) -> Seq<(Seq<char>, Seq<char>)> {
    t.map_values(|e: (&'static str, &'static str)| (e.0@, e.1@))
}

/// The value of the last entry with this key (a later entry overrides an
/// earlier one, as a map insert would).
pub open spec fn lookup(t: Seq<(Seq<char>, Seq<char>)>, key: Seq<char>) -> Option<Seq<char>>
    decreases t.len(),
{
    if t.len() == 0 {
        None
    } else if t.last().0 == key {
        Some(t.last().1)
    } else {
        lookup(t.drop_last(), key)
    }
}

/// English strings.
pub open spec fn en_strings() -> Seq<(Seq<char>, Seq<char>)> {
    seq![
        ("nav.home"@, "Home"@),
        ("nav.proxies"@, "Proxies"@),
        ("nav.profiles"@, "Profiles"@),
        ("nav.connections"@, "Connections"@),
        ("nav.rules"@, "Rules"@),
        ("nav.logs"@, "Logs"@),
        ("nav.settings"@, "Settings"@),
        ("home.proxy_mode"@, "Proxy Mode"@),
        ("home.network"@, "Network"@),
        ("home.net_off"@, "Off"@),
        ("home.net_sysproxy"@, "System Proxy"@),
        ("home.net_tun"@, "TUN"@),
        ("home.traffic"@, "Traffic"@),
        ("home.upload_speed"@, "Upload"@),
        ("home.download_speed"@, "Download"@),
        ("home.active_conn"@, "Active"@),
        ("home.upload_total"@, "Up Total"@),
        ("home.download_total"@, "Down Total"@),
        ("home.memory"@, "Memory"@),
        ("home.site_test"@, "Site Test"@),
        ("home.ip_info"@, "IP Info"@),
        ("home.collecting"@, "Collecting traffic…"@),
        ("home.global_node"@, "GLOBAL Node"@),
        ("proxies.test"@, "Test"@),
        ("proxies.refresh"@, "Refresh"@),
        ("settings.title"@, "Settings"@),
        ("settings.appearance"@, "Appearance"@),
        ("settings.theme"@, "Theme"@),
        ("settings.language"@, "Language"@),
        ("settings.system_proxy"@, "System Proxy"@),
        ("settings.helper_service"@, "Helper Service"@),
        ("settings.clash_core"@, "Clash Core"@),
        ("settings.restart_core"@, "Restart Core"@),
        ("settings.stop_core"@, "Stop Core"@),
        ("settings.install_helper"@, "Install Helper"@),
        ("settings.uninstall_helper"@, "Uninstall Helper"@),
        ("settings.svc_running"@, "Installed and running"@),
        ("settings.svc_stopped"@, "Installed but not running"@),
        ("settings.svc_none"@, "Not installed"@),
        ("home.mode_rule"@, "Rule"@),
        ("home.mode_global"@, "Global"@),
        ("home.mode_direct"@, "Direct"@),
        ("home.ip_info"@, "IP Info"@),
        ("home.test"@, "Test"@),
        ("home.testing"@, "Testing"@),
        ("home.query_failed"@, "Query failed"@),
        ("nav.navigation"@, "Navigation"@),
        ("status.running"@, "Running"@),
        ("status.stopped"@, "Stopped"@),
        ("status.starting"@, "Starting"@),
        ("status.stopping"@, "Stopping"@),
        ("status.failed"@, "Failed"@),
        ("conn.active"@, "active"@),
        ("conn.close_all"@, "Close All"@),
        ("conn.host"@, "Host"@),
        ("conn.network"@, "Net"@),
        ("conn.process"@, "Process"@),
        ("conn.rule"@, "Rule"@),
        ("conn.chains"@, "Chain"@),
    ]
}

/// Chinese strings.
pub open spec fn zh_strings() -> Seq<(Seq<char>, Seq<char>)> {
    seq![
        ("nav.home"@, "主页"@),
        ("nav.proxies"@, "代理"@),
        ("nav.profiles"@, "订阅"@),
        ("nav.connections"@, "连接"@),
        ("nav.rules"@, "规则"@),
        ("nav.logs"@, "日志"@),
        ("nav.settings"@, "设置"@),
        ("home.proxy_mode"@, "代理模式"@),
        ("home.network"@, "网络设置"@),
        ("home.net_off"@, "关闭"@),
        ("home.net_sysproxy"@, "系统代理"@),
        ("home.net_tun"@, "TUN"@),
        ("home.traffic"@, "流量统计"@),
        ("home.upload_speed"@, "上传速度"@),
        ("home.download_speed"@, "下载速度"@),
        ("home.active_conn"@, "活跃连接"@),
        ("home.upload_total"@, "上传量"@),
        ("home.download_total"@, "下载量"@),
        ("home.memory"@, "内核占用"@),
        ("home.site_test"@, "网站测速"@),
        ("home.ip_info"@, "IP 信息"@),
        ("home.collecting"@, "正在收集流量数据…"@),
        ("home.global_node"@, "GLOBAL 节点"@),
        ("proxies.test"@, "测速"@),
        ("proxies.refresh"@, "刷新"@),
        ("settings.title"@, "设置"@),
        ("settings.appearance"@, "外观"@),
        ("settings.theme"@, "主题"@),
        ("settings.language"@, "语言"@),
        ("settings.system_proxy"@, "系统代理"@),
        ("settings.helper_service"@, "辅助服务"@),
        ("settings.clash_core"@, "内核管理"@),
        ("settings.restart_core"@, "重启内核"@),
        ("settings.stop_core"@, "停止内核"@),
        ("settings.install_helper"@, "安装服务"@),
        ("settings.uninstall_helper"@, "卸载服务"@),
        ("settings.svc_running"@, "已安装，运行中"@),
        ("settings.svc_stopped"@, "已安装，未运行"@),
        ("settings.svc_none"@, "未安装"@),
        ("home.mode_rule"@, "规则"@),
        ("home.mode_global"@, "全局"@),
        ("home.mode_direct"@, "直连"@),
        ("home.ip_info"@, "IP 信息"@),
        ("home.test"@, "测试"@),
        ("home.testing"@, "测试中"@),
        ("home.query_failed"@, "查询失败"@),
        ("nav.navigation"@, "导航"@),
        ("status.running"@, "运行中"@),
        ("status.stopped"@, "已停止"@),
        ("status.starting"@, "启动中"@),
        ("status.stopping"@, "停止中"@),
        ("status.failed"@, "失败"@),
        ("conn.active"@, "活跃"@),
        ("conn.close_all"@, "全部关闭"@),
        ("conn.host"@, "目标"@),
        ("conn.network"@, "网络"@),
        ("conn.process"@, "进程"@),
        ("conn.rule"@, "规则"@),
        ("conn.chains"@, "链路"@),
    ]
}

fn en_table() -> (r: Vec<(&'static str, &'static str)>)
    ensures
        table_view(r@) == en_strings(),
{
    let r =     vec![
            ("nav.home", "Home"),
            ("nav.proxies", "Proxies"),
            ("nav.profiles", "Profiles"),
            ("nav.connections", "Connections"),
            ("nav.rules", "Rules"),
            ("nav.logs", "Logs"),
            ("nav.settings", "Settings"),
            ("home.proxy_mode", "Proxy Mode"),
            ("home.network", "Network"),
            ("home.net_off", "Off"),
            ("home.net_sysproxy", "System Proxy"),
            ("home.net_tun", "TUN"),
            ("home.traffic", "Traffic"),
            ("home.upload_speed", "Upload"),
            ("home.download_speed", "Download"),
            ("home.active_conn", "Active"),
            ("home.upload_total", "Up Total"),
            ("home.download_total", "Down Total"),
            ("home.memory", "Memory"),
            ("home.site_test", "Site Test"),
            ("home.ip_info", "IP Info"),
            ("home.collecting", "Collecting traffic…"),
            ("home.global_node", "GLOBAL Node"),
            ("proxies.test", "Test"),
            ("proxies.refresh", "Refresh"),
            ("settings.title", "Settings"),
            ("settings.appearance", "Appearance"),
            ("settings.theme", "Theme"),
            ("settings.language", "Language"),
            ("settings.system_proxy", "System Proxy"),
            ("settings.helper_service", "Helper Service"),
            ("settings.clash_core", "Clash Core"),
            ("settings.restart_core", "Restart Core"),
            ("settings.stop_core", "Stop Core"),
            ("settings.install_helper", "Install Helper"),
            ("settings.uninstall_helper", "Uninstall Helper"),
            ("settings.svc_running", "Installed and running"),
            ("settings.svc_stopped", "Installed but not running"),
            ("settings.svc_none", "Not installed"),
            ("home.mode_rule", "Rule"),
            ("home.mode_global", "Global"),
            ("home.mode_direct", "Direct"),
            ("home.ip_info", "IP Info"),
            ("home.test", "Test"),
            ("home.testing", "Testing"),
            ("home.query_failed", "Query failed"),
            ("nav.navigation", "Navigation"),
            ("status.running", "Running"),
            ("status.stopped", "Stopped"),
            ("status.starting", "Starting"),
            ("status.stopping", "Stopping"),
            ("status.failed", "Failed"),
            ("conn.active", "active"),
            ("conn.close_all", "Close All"),
            ("conn.host", "Host"),
            ("conn.network", "Net"),
            ("conn.process", "Process"),
            ("conn.rule", "Rule"),
            ("conn.chains", "Chain"),
        ];
    assert(table_view(r@) =~= en_strings());
    r
}

fn zh_table() -> (r: Vec<(&'static str, &'static str)>)
    ensures
        table_view(r@) == zh_strings(),
{
    let r =     vec![
            ("nav.home", "主页"),
            ("nav.proxies", "代理"),
            ("nav.profiles", "订阅"),
            ("nav.connections", "连接"),
            ("nav.rules", "规则"),
            ("nav.logs", "日志"),
            ("nav.settings", "设置"),
            ("home.proxy_mode", "代理模式"),
            ("home.network", "网络设置"),
            ("home.net_off", "关闭"),
            ("home.net_sysproxy", "系统代理"),
            ("home.net_tun", "TUN"),
            ("home.traffic", "流量统计"),
            ("home.upload_speed", "上传速度"),
            ("home.download_speed", "下载速度"),
            ("home.active_conn", "活跃连接"),
            ("home.upload_total", "上传量"),
            ("home.download_total", "下载量"),
            ("home.memory", "内核占用"),
            ("home.site_test", "网站测速"),
            ("home.ip_info", "IP 信息"),
            ("home.collecting", "正在收集流量数据…"),
            ("home.global_node", "GLOBAL 节点"),
            ("proxies.test", "测速"),
            ("proxies.refresh", "刷新"),
            ("settings.title", "设置"),
            ("settings.appearance", "外观"),
            ("settings.theme", "主题"),
            ("settings.language", "语言"),
            ("settings.system_proxy", "系统代理"),
            ("settings.helper_service", "辅助服务"),
            ("settings.clash_core", "内核管理"),
            ("settings.restart_core", "重启内核"),
            ("settings.stop_core", "停止内核"),
            ("settings.install_helper", "安装服务"),
            ("settings.uninstall_helper", "卸载服务"),
            ("settings.svc_running", "已安装，运行中"),
            ("settings.svc_stopped", "已安装，未运行"),
            ("settings.svc_none", "未安装"),
            ("home.mode_rule", "规则"),
            ("home.mode_global", "全局"),
            ("home.mode_direct", "直连"),
            ("home.ip_info", "IP 信息"),
            ("home.test", "测试"),
            ("home.testing", "测试中"),
            ("home.query_failed", "查询失败"),
            ("nav.navigation", "导航"),
            ("status.running", "运行中"),
            ("status.stopped", "已停止"),
            ("status.starting", "启动中"),
            ("status.stopping", "停止中"),
            ("status.failed", "失败"),
            ("conn.active", "活跃"),
            ("conn.close_all", "全部关闭"),
            ("conn.host", "目标"),
            ("conn.network", "网络"),
            ("conn.process", "进程"),
            ("conn.rule", "规则"),
            ("conn.chains", "链路"),
        ];
    assert(table_view(r@) =~= zh_strings());
    r
}

fn find_in(t: &Vec<(&'static str, &'static str)>, key: &str) -> (r: Option<&'static str>)
    ensures
        match r {
            Some(v) => lookup(table_view(t@), key@) == Some(v@),
            None => lookup(table_view(t@), key@) is None,
        },
{
    let mut found: Option<&'static str> = None;
    let mut i: usize = 0;
    while i < t.len()
        invariant
            i <= t@.len(),
            match found {
                Some(v) => lookup(table_view(t@.take(i as int)), key@) == Some(v@),
                None => lookup(table_view(t@.take(i as int)), key@) is None,
            },
        decreases t.len() - i,
    {
        let (k, v) = t[i];
        assert(table_view(t@.take(i + 1)).drop_last() == table_view(t@.take(i as int)));
        if str_eq(k, key) {
            found = Some(v);
        }
        i = i + 1;
    }
    assert(t@.take(t@.len() as int) == t@);
    found
}

/// The string shown for `key` in `locale`: the locale's own string, else
/// the English one, else `"???"`.
pub open spec fn translation(locale: Locale, key: Seq<char>) -> Seq<char> {
    let own = match locale {
        Locale::Zh => lookup(zh_strings(), key),
        Locale::En => lookup(en_strings(), key),
    };
    match own {
        Some(v) => v,
        None => match lookup(en_strings(), key) {
            Some(v) => v,
            None => "???"@,
        },
    }
}

/// Localised string for `key` in the current locale.
pub fn t(current: &Locale, key: &str) -> (r: &'static str)
    ensures
        r@ == translation(*current, key@),
{
    let table = match current {
        Locale::Zh => zh_table(),
        Locale::En => en_table(),
    };
    match find_in(&table, key) {
        Some(v) => v,
        None => match find_in(&en_table(), key) {
            Some(v) => v,
            None => "???",
        },
    }
}

} // verus!
