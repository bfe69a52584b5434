//! The Home page's model: traffic statistics polled every second from
//! mihomo, the network-mode switch, latency grading, and country names for
//! the IP-info card.

use vstd::prelude::*;

use crate::history::BoundedLog;
use crate::i18n::Locale;
use crate::text::{chars_of, str_eq, string_of, trim, trim_chars};

verus! {

/// How often the Home page reads traffic, mode and TUN state, in
/// milliseconds.
pub const POLL_INTERVAL_MS: u64 = 1000;

/// How many times the controller is probed before the IP lookup goes ahead.
pub const CONTROLLER_WAIT_TRIES: u32 = 15;

/// How long one probe of the controller may take, in milliseconds.
pub const CONTROLLER_PROBE_TIMEOUT_MS: u64 = 500;

/// The pause after a probe that found no controller, in milliseconds.
pub const CONTROLLER_RETRY_DELAY_MS: u64 = 1000;

/// After `tries_done` probes, the last of which did or did not reach the
/// controller (and was followed by a pause if it did not): probe once
/// more? Only while it was unreachable and fewer than
/// `CONTROLLER_WAIT_TRIES` probes were made; then the IP lookup goes ahead
/// either way.
pub fn probe_controller_again(tries_done: u32, reachable: bool) -> (r: bool)
    ensures
        r == (!reachable && tries_done < CONTROLLER_WAIT_TRIES),
{
    !reachable && tries_done < CONTROLLER_WAIT_TRIES
}

/// Samples kept for the chart: ten minutes at one per second.
pub const TRAFFIC_SAMPLE_LIMIT: usize = 600;

/// One point of the traffic chart: bytes per second up and down.
#[derive(Debug, Clone, Copy, PartialEq, Eq, Structural)]
pub struct TrafficSample {
    pub seq: u32,
    pub up: u64,
    pub down: u64,
}

/// One poll of mihomo's `/connections`: cumulative totals, the number of
/// open connections and the core's memory use.
#[derive(Debug, Clone, Copy, PartialEq, Eq, Structural)]
pub struct RawStats {
    pub upload_total: u64,
    pub download_total: u64,
    pub connections_count: u32,
    pub memory_inuse: u64,
}

/// Saturating difference `a - b`.
pub open spec fn sat_sub(a: u64, b: u64) -> u64 {
    if a >= b {
        (a - b) as u64
    } else {
        0
    }
}

/// Speed derived from a new poll: the growth of each cumulative total since
/// the previous poll (0 for the first poll, and for a total that went down).
pub open spec fn speed_since(last: Option<(u64, u64)>, s: RawStats) -> (u64, u64) {
    match last {
        Some((up, down)) => (sat_sub(s.upload_total, up), sat_sub(s.download_total, down)),
        None => (0, 0),
    }
}

/// Traffic figures of the Home page.
pub struct TrafficStats {
    pub seq: u32,
    pub samples: BoundedLog<TrafficSample>,
    pub last_total: Option<(u64, u64)>,
    pub cur_up_speed: u64,
    pub cur_down_speed: u64,
    pub cur_up_total: u64,
    pub cur_down_total: u64,
    pub cur_connections: u32,
    pub cur_memory: u64,
}

impl TrafficStats {
    /// The chart samples, oldest first.
    pub open spec fn view_samples(&self) -> Seq<TrafficSample> {
        self.samples.view_items()
    }

    /// The totals of the previous poll.
    pub open spec fn last_totals(&self) -> Option<(u64, u64)> {
        self.last_total
    }

    /// Sequence number of the latest sample.
    pub open spec fn seq_no(&self) -> u32 {
        self.seq
    }

    /// The sample history never exceeds its limit.
    pub open spec fn wf(&self) -> bool {
        &&& self.samples.wf()
        &&& self.samples.capacity() == TRAFFIC_SAMPLE_LIMIT
    }

    /// No poll yet.
    pub fn new() -> (s: Self)
        ensures
            s.wf(),
            s.view_samples().len() == 0,
            s.last_totals() is None,
            s.seq_no() == 0,
            s.cur_up_speed == 0 && s.cur_down_speed == 0 && s.cur_up_total == 0
                && s.cur_down_total == 0 && s.cur_connections == 0 && s.cur_memory == 0,
    {
        TrafficStats {
            seq: 0,
            samples: BoundedLog::new(TRAFFIC_SAMPLE_LIMIT),
            last_total: None,
            cur_up_speed: 0,
            cur_down_speed: 0,
            cur_up_total: 0,
            cur_down_total: 0,
            cur_connections: 0,
            cur_memory: 0,
        }
    }

    /// Takes in one successful poll: the current figures become the poll's,
    /// the speed is the growth since the previous poll, and one sample with
    /// the next sequence number (wrapping) is appended to the chart, the
    /// oldest dropped once there are `TRAFFIC_SAMPLE_LIMIT`.
    pub fn ingest_stats(&mut self, stats: RawStats)
        requires
            old(self).wf(),
        ensures
            final(self).wf(),
            ({
                let sp = speed_since(old(self).last_totals(), stats);
                let seq = if old(self).seq_no() == u32::MAX {
                    0
                } else {
                    (old(self).seq_no() + 1) as u32
                };
                let sample = TrafficSample { seq, up: sp.0, down: sp.1 };
                &&& final(self).cur_up_speed == sp.0
                &&& final(self).cur_down_speed == sp.1
                &&& final(self).cur_up_total == stats.upload_total
                &&& final(self).cur_down_total == stats.download_total
                &&& final(self).cur_connections == stats.connections_count
                &&& final(self).cur_memory == stats.memory_inuse
                &&& final(self).last_totals() == Some((stats.upload_total, stats.download_total))
                &&& final(self).seq_no() == seq
                &&& (old(self).view_samples().len() < TRAFFIC_SAMPLE_LIMIT ==> final(self).view_samples() == old(self).view_samples().push(sample))
                &&& (old(self).view_samples().len() == TRAFFIC_SAMPLE_LIMIT ==> final(self).view_samples() == old(self).view_samples().drop_first().push(sample))
            }),
    {
        let speed = match self.last_total {
            Some((last_up, last_down)) => (
                stats.upload_total.saturating_sub(last_up),
                stats.download_total.saturating_sub(last_down),
            ),
            None => (0, 0),
        };
        self.last_total = Some((stats.upload_total, stats.download_total));
        self.cur_up_speed = speed.0;
        self.cur_down_speed = speed.1;
        self.cur_up_total = stats.upload_total;
        self.cur_down_total = stats.download_total;
        self.cur_connections = stats.connections_count;
        self.cur_memory = stats.memory_inuse;
        self.seq = if self.seq == u32::MAX {
            0
        } else {
            self.seq + 1
        };
        self.samples.push(TrafficSample { seq: self.seq, up: speed.0, down: speed.1 });
    }

    /// Number of chart samples.
    pub fn sample_count(&self) -> (n: usize)
        requires
            self.wf(),
        ensures
            n == self.view_samples().len(),
    {
        self.samples.len()
    }

    /// The chart sample at `i` (0 is the oldest).
    pub fn sample(&self, i: usize) -> (r: TrafficSample)
        requires
            self.wf(),
            i < self.view_samples().len(),
        ensures
            r == self.view_samples()[i as int],
    {
        *self.samples.get(i)
    }
}

/// The chart never holds more than `TRAFFIC_SAMPLE_LIMIT` samples, and its
/// newest sample is the speed of the latest poll.
pub proof fn lemma_chart_bounded(before: Seq<TrafficSample>, after: Seq<TrafficSample>, sample: TrafficSample)
    requires
        before.len() <= TRAFFIC_SAMPLE_LIMIT,
        before.len() < TRAFFIC_SAMPLE_LIMIT ==> after == before.push(sample),
        before.len() == TRAFFIC_SAMPLE_LIMIT ==> after == before.drop_first().push(sample),
    ensures
        after.len() <= TRAFFIC_SAMPLE_LIMIT,
        after.last() == sample,
{
}

/// The two network switches of the Home page.
#[derive(Debug, Clone, Copy, PartialEq, Eq, Structural)]
pub enum Toggle {
    /// Turn TUN mode on (`true`) or off.
    Tun(bool),
    /// Turn the system proxy on (`true`) or off.
    SystemProxy(bool),
}

/// The network modes offered: `off`, `sysproxy` and `tun`.
pub open spec fn mode_toggles(mode: Seq<char>, tun_on: bool, proxy_on: bool) -> Seq<Toggle> {
    if mode == "off"@ {
        (if tun_on { seq![Toggle::Tun(false)] } else { Seq::empty() }) + (if proxy_on {
            seq![Toggle::SystemProxy(false)]
        } else {
            Seq::empty()
        })
    } else if mode == "sysproxy"@ {
        (if tun_on { seq![Toggle::Tun(false)] } else { Seq::empty() }) + (if !proxy_on {
            seq![Toggle::SystemProxy(true)]
        } else {
            Seq::empty()
        })
    } else if mode == "tun"@ {
        (if proxy_on { seq![Toggle::SystemProxy(false)] } else { Seq::empty() }) + (if !tun_on {
            seq![Toggle::Tun(true)]
        } else {
            Seq::empty()
        })
    } else {
        Seq::empty()
    }
}

/// The switches to flip, in order, to reach network mode `mode` from the
/// current TUN and system-proxy states (nothing for an unknown mode).
pub fn set_network_mode(mode: &str, tun_on: bool, proxy_on: bool) -> (r: Vec<Toggle>)
    ensures
        r@ == mode_toggles(mode@, tun_on, proxy_on),
{
    let mut r: Vec<Toggle> = Vec::new();
    if str_eq(mode, "off") {
        if tun_on {
            r.push(Toggle::Tun(false));
        }
        if proxy_on {
            r.push(Toggle::SystemProxy(false));
        }
    } else if str_eq(mode, "sysproxy") {
        if tun_on {
            r.push(Toggle::Tun(false));
        }
        if !proxy_on {
            r.push(Toggle::SystemProxy(true));
        }
    } else if str_eq(mode, "tun") {
        if proxy_on {
            r.push(Toggle::SystemProxy(false));
        }
        if !tun_on {
            r.push(Toggle::Tun(true));
        }
    }
    assert(r@ =~= mode_toggles(mode@, tun_on, proxy_on));
    r
}

/// The switch states after flipping `ts`.
pub open spec fn apply_toggles(ts: Seq<Toggle>, tun_on: bool, proxy_on: bool) -> (bool, bool)
    decreases ts.len(),
{
    if ts.len() == 0 {
        (tun_on, proxy_on)
    } else {
        match ts.last() {
            Toggle::Tun(b) => (b, apply_toggles(ts.drop_last(), tun_on, proxy_on).1),
            Toggle::SystemProxy(b) => (apply_toggles(ts.drop_last(), tun_on, proxy_on).0, b),
        }
    }
}

/// Switching to a network mode leaves exactly that mode's switches on:
/// `off` turns both off, `sysproxy` only the system proxy, `tun` only TUN.
pub proof fn lemma_network_mode_reached(tun_on: bool, proxy_on: bool)
    ensures
        apply_toggles(mode_toggles("off"@, tun_on, proxy_on), tun_on, proxy_on) == (false, false),
        apply_toggles(mode_toggles("sysproxy"@, tun_on, proxy_on), tun_on, proxy_on) == (false, true),
        apply_toggles(mode_toggles("tun"@, tun_on, proxy_on), tun_on, proxy_on) == (true, false),
{
    reveal_strlit("off");
    reveal_strlit("sysproxy");
    reveal_strlit("tun");
    assert("sysproxy"@ != "off"@) by {
        assert("sysproxy"@.len() != "off"@.len());
    }
    assert("tun"@ != "off"@) by {
        assert("tun"@[0] != "off"@[0]);
    }
    assert("tun"@ != "sysproxy"@) by {
        assert("tun"@.len() != "sysproxy"@.len());
    }
    reveal_with_fuel(apply_toggles, 3);
    assert(seq![Toggle::Tun(false)] + seq![Toggle::SystemProxy(false)] =~= seq![
        Toggle::Tun(false),
        Toggle::SystemProxy(false),
    ]);
    assert(seq![Toggle::Tun(false)] + seq![Toggle::SystemProxy(true)] =~= seq![
        Toggle::Tun(false),
        Toggle::SystemProxy(true),
    ]);
    assert(seq![Toggle::SystemProxy(false)] + seq![Toggle::Tun(true)] =~= seq![
        Toggle::SystemProxy(false),
        Toggle::Tun(true),
    ]);
    let e = Seq::<Toggle>::empty();
    assert(seq![Toggle::Tun(false)] + e =~= seq![Toggle::Tun(false)]);
    assert(e + seq![Toggle::SystemProxy(false)] =~= seq![Toggle::SystemProxy(false)]);
    assert(e + seq![Toggle::SystemProxy(true)] =~= seq![Toggle::SystemProxy(true)]);
    assert(seq![Toggle::SystemProxy(false)] + e =~= seq![Toggle::SystemProxy(false)]);
    assert(e + seq![Toggle::Tun(true)] =~= seq![Toggle::Tun(true)]);
    assert(e + e =~= e);
}

/// How a measured latency is coloured.
#[derive(Debug, Clone, Copy, PartialEq, Eq, Structural)]
pub enum LatencyLevel {
    /// The test failed or timed out.
    Failed,
    Fast,
    Medium,
    Slow,
}

/// Grade of a site-test latency: under 100 ms fast, under 300 ms medium,
/// slow otherwise.
pub fn latency_level(ms: u32) -> (r: LatencyLevel)
    ensures
        r == (if ms < 100 {
            LatencyLevel::Fast
        } else if ms < 300 {
            LatencyLevel::Medium
        } else {
            LatencyLevel::Slow
        }),
{
    if ms < 100 {
        LatencyLevel::Fast
    } else if ms < 300 {
        LatencyLevel::Medium
    } else {
        LatencyLevel::Slow
    }
}

/// ISO 3166-1 alpha-2 codes with English and Chinese names.
pub open spec fn country_entries() -> Seq<(&'static str, &'static str, &'static str)> {
    seq![
        ("AD", "Andorra", "安道尔"),
        ("AE", "United Arab Emirates", "阿联酋"),
        ("AF", "Afghanistan", "阿富汗"),
        ("AG", "Antigua and Barbuda", "安提瓜和巴布达"),
        ("AI", "Anguilla", "安圭拉"),
        ("AL", "Albania", "阿尔巴尼亚"),
        ("AM", "Armenia", "亚美尼亚"),
        ("AO", "Angola", "安哥拉"),
        ("AQ", "Antarctica", "南极洲"),
        ("AR", "Argentina", "阿根廷"),
        ("AS", "American Samoa", "美属萨摩亚"),
        ("AT", "Austria", "奥地利"),
        ("AU", "Australia", "澳大利亚"),
        ("AW", "Aruba", "阿鲁巴"),
        ("AX", "Åland Islands", "奥兰群岛"),
        ("AZ", "Azerbaijan", "阿塞拜疆"),
        ("BA", "Bosnia and Herzegovina", "波黑"),
        ("BB", "Barbados", "巴巴多斯"),
        ("BD", "Bangladesh", "孟加拉国"),
        ("BE", "Belgium", "比利时"),
        ("BF", "Burkina Faso", "布基纳法索"),
        ("BG", "Bulgaria", "保加利亚"),
        ("BH", "Bahrain", "巴林"),
        ("BI", "Burundi", "布隆迪"),
        ("BJ", "Benin", "贝宁"),
        ("BL", "Saint Barthélemy", "圣巴泰勒米"),
        ("BM", "Bermuda", "百慕大"),
        ("BN", "Brunei", "文莱"),
        ("BO", "Bolivia", "玻利维亚"),
        ("BQ", "Caribbean Netherlands", "荷兰加勒比区"),
        ("BR", "Brazil", "巴西"),
        ("BS", "Bahamas", "巴哈马"),
        ("BT", "Bhutan", "不丹"),
        ("BV", "Bouvet Island", "布韦岛"),
        ("BW", "Botswana", "博茨瓦纳"),
        ("BY", "Belarus", "白俄罗斯"),
        ("BZ", "Belize", "伯利兹"),
        ("CA", "Canada", "加拿大"),
        ("CC", "Cocos Islands", "科科斯群岛"),
        ("CD", "DR Congo", "刚果（金）"),
        ("CF", "Central African Republic", "中非共和国"),
        ("CG", "Republic of the Congo", "刚果（布）"),
        ("CH", "Switzerland", "瑞士"),
        ("CI", "Côte d'Ivoire", "科特迪瓦"),
        ("CK", "Cook Islands", "库克群岛"),
        ("CL", "Chile", "智利"),
        ("CM", "Cameroon", "喀麦隆"),
        ("CN", "China", "中国"),
        ("CO", "Colombia", "哥伦比亚"),
        ("CR", "Costa Rica", "哥斯达黎加"),
        ("CU", "Cuba", "古巴"),
        ("CV", "Cape Verde", "佛得角"),
        ("CW", "Curaçao", "库拉索"),
        ("CX", "Christmas Island", "圣诞岛"),
        ("CY", "Cyprus", "塞浦路斯"),
        ("CZ", "Czechia", "捷克"),
        ("DE", "Germany", "德国"),
        ("DJ", "Djibouti", "吉布提"),
        ("DK", "Denmark", "丹麦"),
        ("DM", "Dominica", "多米尼克"),
        ("DO", "Dominican Republic", "多米尼加"),
        ("DZ", "Algeria", "阿尔及利亚"),
        ("EC", "Ecuador", "厄瓜多尔"),
        ("EE", "Estonia", "爱沙尼亚"),
        ("EG", "Egypt", "埃及"),
        ("EH", "Western Sahara", "西撒哈拉"),
        ("ER", "Eritrea", "厄立特里亚"),
        ("ES", "Spain", "西班牙"),
        ("ET", "Ethiopia", "埃塞俄比亚"),
        ("FI", "Finland", "芬兰"),
        ("FJ", "Fiji", "斐济"),
        ("FK", "Falkland Islands", "福克兰群岛"),
        ("FM", "Micronesia", "密克罗尼西亚"),
        ("FO", "Faroe Islands", "法罗群岛"),
        ("FR", "France", "法国"),
        ("GA", "Gabon", "加蓬"),
        ("GB", "United Kingdom", "英国"),
        ("GD", "Grenada", "格林纳达"),
        ("GE", "Georgia", "格鲁吉亚"),
        ("GF", "French Guiana", "法属圭亚那"),
        ("GG", "Guernsey", "根西"),
        ("GH", "Ghana", "加纳"),
        ("GI", "Gibraltar", "直布罗陀"),
        ("GL", "Greenland", "格陵兰"),
        ("GM", "Gambia", "冈比亚"),
        ("GN", "Guinea", "几内亚"),
        ("GP", "Guadeloupe", "瓜德罗普"),
        ("GQ", "Equatorial Guinea", "赤道几内亚"),
        ("GR", "Greece", "希腊"),
        ("GS", "South Georgia", "南乔治亚"),
        ("GT", "Guatemala", "危地马拉"),
        ("GU", "Guam", "关岛"),
        ("GW", "Guinea-Bissau", "几内亚比绍"),
        ("GY", "Guyana", "圭亚那"),
        ("HK", "Hong Kong", "香港"),
        ("HM", "Heard Island", "赫德岛"),
        ("HN", "Honduras", "洪都拉斯"),
        ("HR", "Croatia", "克罗地亚"),
        ("HT", "Haiti", "海地"),
        ("HU", "Hungary", "匈牙利"),
        ("ID", "Indonesia", "印度尼西亚"),
        ("IE", "Ireland", "爱尔兰"),
        ("IL", "Israel", "以色列"),
        ("IM", "Isle of Man", "马恩岛"),
        ("IN", "India", "印度"),
        ("IO", "British Indian Ocean Territory", "英属印度洋领地"),
        ("IQ", "Iraq", "伊拉克"),
        ("IR", "Iran", "伊朗"),
        ("IS", "Iceland", "冰岛"),
        ("IT", "Italy", "意大利"),
        ("JE", "Jersey", "泽西"),
        ("JM", "Jamaica", "牙买加"),
        ("JO", "Jordan", "约旦"),
        ("JP", "Japan", "日本"),
        ("KE", "Kenya", "肯尼亚"),
        ("KG", "Kyrgyzstan", "吉尔吉斯斯坦"),
        ("KH", "Cambodia", "柬埔寨"),
        ("KI", "Kiribati", "基里巴斯"),
        ("KM", "Comoros", "科摩罗"),
        ("KN", "Saint Kitts and Nevis", "圣基茨和尼维斯"),
        ("KP", "North Korea", "朝鲜"),
        ("KR", "South Korea", "韩国"),
        ("KW", "Kuwait", "科威特"),
        ("KY", "Cayman Islands", "开曼群岛"),
        ("KZ", "Kazakhstan", "哈萨克斯坦"),
        ("LA", "Laos", "老挝"),
        ("LB", "Lebanon", "黎巴嫩"),
        ("LC", "Saint Lucia", "圣卢西亚"),
        ("LI", "Liechtenstein", "列支敦士登"),
        ("LK", "Sri Lanka", "斯里兰卡"),
        ("LR", "Liberia", "利比里亚"),
        ("LS", "Lesotho", "莱索托"),
        ("LT", "Lithuania", "立陶宛"),
        ("LU", "Luxembourg", "卢森堡"),
        ("LV", "Latvia", "拉脱维亚"),
        ("LY", "Libya", "利比亚"),
        ("MA", "Morocco", "摩洛哥"),
        ("MC", "Monaco", "摩纳哥"),
        ("MD", "Moldova", "摩尔多瓦"),
        ("ME", "Montenegro", "黑山"),
        ("MF", "Saint Martin", "法属圣马丁"),
        ("MG", "Madagascar", "马达加斯加"),
        ("MH", "Marshall Islands", "马绍尔群岛"),
        ("MK", "North Macedonia", "北马其顿"),
        ("ML", "Mali", "马里"),
        ("MM", "Myanmar", "缅甸"),
        ("MN", "Mongolia", "蒙古"),
        ("MO", "Macao", "澳门"),
        ("MP", "Northern Mariana Islands", "北马里亚纳群岛"),
        ("MQ", "Martinique", "马提尼克"),
        ("MR", "Mauritania", "毛里塔尼亚"),
        ("MS", "Montserrat", "蒙特塞拉特"),
        ("MT", "Malta", "马耳他"),
        ("MU", "Mauritius", "毛里求斯"),
        ("MV", "Maldives", "马尔代夫"),
        ("MW", "Malawi", "马拉维"),
        ("MX", "Mexico", "墨西哥"),
        ("MY", "Malaysia", "马来西亚"),
        ("MZ", "Mozambique", "莫桑比克"),
        ("NA", "Namibia", "纳米比亚"),
        ("NC", "New Caledonia", "新喀里多尼亚"),
        ("NE", "Niger", "尼日尔"),
        ("NF", "Norfolk Island", "诺福克岛"),
        ("NG", "Nigeria", "尼日利亚"),
        ("NI", "Nicaragua", "尼加拉瓜"),
        ("NL", "Netherlands", "荷兰"),
        ("NO", "Norway", "挪威"),
        ("NP", "Nepal", "尼泊尔"),
        ("NR", "Nauru", "瑙鲁"),
        ("NU", "Niue", "纽埃"),
        ("NZ", "New Zealand", "新西兰"),
        ("OM", "Oman", "阿曼"),
        ("PA", "Panama", "巴拿马"),
        ("PE", "Peru", "秘鲁"),
        ("PF", "French Polynesia", "法属波利尼西亚"),
        ("PG", "Papua New Guinea", "巴布亚新几内亚"),
        ("PH", "Philippines", "菲律宾"),
        ("PK", "Pakistan", "巴基斯坦"),
        ("PL", "Poland", "波兰"),
        ("PM", "Saint Pierre and Miquelon", "圣皮埃尔和密克隆"),
        ("PN", "Pitcairn Islands", "皮特凯恩群岛"),
        ("PR", "Puerto Rico", "波多黎各"),
        ("PS", "Palestine", "巴勒斯坦"),
        ("PT", "Portugal", "葡萄牙"),
        ("PW", "Palau", "帕劳"),
        ("PY", "Paraguay", "巴拉圭"),
        ("QA", "Qatar", "卡塔尔"),
        ("RE", "Réunion", "留尼汪"),
        ("RO", "Romania", "罗马尼亚"),
        ("RS", "Serbia", "塞尔维亚"),
        ("RU", "Russia", "俄罗斯"),
        ("RW", "Rwanda", "卢旺达"),
        ("SA", "Saudi Arabia", "沙特阿拉伯"),
        ("SB", "Solomon Islands", "所罗门群岛"),
        ("SC", "Seychelles", "塞舌尔"),
        ("SD", "Sudan", "苏丹"),
        ("SE", "Sweden", "瑞典"),
        ("SG", "Singapore", "新加坡"),
        ("SH", "Saint Helena", "圣赫勒拿"),
        ("SI", "Slovenia", "斯洛文尼亚"),
        ("SJ", "Svalbard and Jan Mayen", "斯瓦尔巴和扬马延"),
        ("SK", "Slovakia", "斯洛伐克"),
        ("SL", "Sierra Leone", "塞拉利昂"),
        ("SM", "San Marino", "圣马力诺"),
        ("SN", "Senegal", "塞内加尔"),
        ("SO", "Somalia", "索马里"),
        ("SR", "Suriname", "苏里南"),
        ("SS", "South Sudan", "南苏丹"),
        ("ST", "São Tomé and Príncipe", "圣多美和普林西比"),
        ("SV", "El Salvador", "萨尔瓦多"),
        ("SX", "Sint Maarten", "荷属圣马丁"),
        ("SY", "Syria", "叙利亚"),
        ("SZ", "Eswatini", "斯威士兰"),
        ("TC", "Turks and Caicos Islands", "特克斯和凯科斯群岛"),
        ("TD", "Chad", "乍得"),
        ("TF", "French Southern Territories", "法属南方领地"),
        ("TG", "Togo", "多哥"),
        ("TH", "Thailand", "泰国"),
        ("TJ", "Tajikistan", "塔吉克斯坦"),
        ("TK", "Tokelau", "托克劳"),
        ("TL", "Timor-Leste", "东帝汶"),
        ("TM", "Turkmenistan", "土库曼斯坦"),
        ("TN", "Tunisia", "突尼斯"),
        ("TO", "Tonga", "汤加"),
        ("TR", "Türkiye", "土耳其"),
        ("TT", "Trinidad and Tobago", "特立尼达和多巴哥"),
        ("TV", "Tuvalu", "图瓦卢"),
        ("TW", "Taiwan", "台湾"),
        ("TZ", "Tanzania", "坦桑尼亚"),
        ("UA", "Ukraine", "乌克兰"),
        ("UG", "Uganda", "乌干达"),
        ("UM", "U.S. Outlying Islands", "美国本土外小岛屿"),
        ("US", "United States", "美国"),
        ("UY", "Uruguay", "乌拉圭"),
        ("UZ", "Uzbekistan", "乌兹别克斯坦"),
        ("VA", "Vatican City", "梵蒂冈"),
        ("VC", "Saint Vincent and the Grenadines", "圣文森特和格林纳丁斯"),
        ("VE", "Venezuela", "委内瑞拉"),
        ("VG", "British Virgin Islands", "英属维尔京群岛"),
        ("VI", "U.S. Virgin Islands", "美属维尔京群岛"),
        ("VN", "Vietnam", "越南"),
        ("VU", "Vanuatu", "瓦努阿图"),
        ("WF", "Wallis and Futuna", "瓦利斯和富图纳"),
        ("WS", "Samoa", "萨摩亚"),
        ("XK", "Kosovo", "科索沃"),
        ("YE", "Yemen", "也门"),
        ("YT", "Mayotte", "马约特"),
        ("ZA", "South Africa", "南非"),
        ("ZM", "Zambia", "赞比亚"),
        ("ZW", "Zimbabwe", "津巴布韦"),
    ]
}

fn country_table() -> (r: Vec<(&'static str, &'static str, &'static str)>)
    ensures
        r@ == country_entries(),
{
    let r = vec![
        ("AD", "Andorra", "安道尔"),
        ("AE", "United Arab Emirates", "阿联酋"),
        ("AF", "Afghanistan", "阿富汗"),
        ("AG", "Antigua and Barbuda", "安提瓜和巴布达"),
        ("AI", "Anguilla", "安圭拉"),
        ("AL", "Albania", "阿尔巴尼亚"),
        ("AM", "Armenia", "亚美尼亚"),
        ("AO", "Angola", "安哥拉"),
        ("AQ", "Antarctica", "南极洲"),
        ("AR", "Argentina", "阿根廷"),
        ("AS", "American Samoa", "美属萨摩亚"),
        ("AT", "Austria", "奥地利"),
        ("AU", "Australia", "澳大利亚"),
        ("AW", "Aruba", "阿鲁巴"),
        ("AX", "Åland Islands", "奥兰群岛"),
        ("AZ", "Azerbaijan", "阿塞拜疆"),
        ("BA", "Bosnia and Herzegovina", "波黑"),
        ("BB", "Barbados", "巴巴多斯"),
        ("BD", "Bangladesh", "孟加拉国"),
        ("BE", "Belgium", "比利时"),
        ("BF", "Burkina Faso", "布基纳法索"),
        ("BG", "Bulgaria", "保加利亚"),
        ("BH", "Bahrain", "巴林"),
        ("BI", "Burundi", "布隆迪"),
        ("BJ", "Benin", "贝宁"),
        ("BL", "Saint Barthélemy", "圣巴泰勒米"),
        ("BM", "Bermuda", "百慕大"),
        ("BN", "Brunei", "文莱"),
        ("BO", "Bolivia", "玻利维亚"),
        ("BQ", "Caribbean Netherlands", "荷兰加勒比区"),
        ("BR", "Brazil", "巴西"),
        ("BS", "Bahamas", "巴哈马"),
        ("BT", "Bhutan", "不丹"),
        ("BV", "Bouvet Island", "布韦岛"),
        ("BW", "Botswana", "博茨瓦纳"),
        ("BY", "Belarus", "白俄罗斯"),
        ("BZ", "Belize", "伯利兹"),
        ("CA", "Canada", "加拿大"),
        ("CC", "Cocos Islands", "科科斯群岛"),
        ("CD", "DR Congo", "刚果（金）"),
        ("CF", "Central African Republic", "中非共和国"),
        ("CG", "Republic of the Congo", "刚果（布）"),
        ("CH", "Switzerland", "瑞士"),
        ("CI", "Côte d'Ivoire", "科特迪瓦"),
        ("CK", "Cook Islands", "库克群岛"),
        ("CL", "Chile", "智利"),
        ("CM", "Cameroon", "喀麦隆"),
        ("CN", "China", "中国"),
        ("CO", "Colombia", "哥伦比亚"),
        ("CR", "Costa Rica", "哥斯达黎加"),
        ("CU", "Cuba", "古巴"),
        ("CV", "Cape Verde", "佛得角"),
        ("CW", "Curaçao", "库拉索"),
        ("CX", "Christmas Island", "圣诞岛"),
        ("CY", "Cyprus", "塞浦路斯"),
        ("CZ", "Czechia", "捷克"),
        ("DE", "Germany", "德国"),
        ("DJ", "Djibouti", "吉布提"),
        ("DK", "Denmark", "丹麦"),
        ("DM", "Dominica", "多米尼克"),
        ("DO", "Dominican Republic", "多米尼加"),
        ("DZ", "Algeria", "阿尔及利亚"),
        ("EC", "Ecuador", "厄瓜多尔"),
        ("EE", "Estonia", "爱沙尼亚"),
        ("EG", "Egypt", "埃及"),
        ("EH", "Western Sahara", "西撒哈拉"),
        ("ER", "Eritrea", "厄立特里亚"),
        ("ES", "Spain", "西班牙"),
        ("ET", "Ethiopia", "埃塞俄比亚"),
        ("FI", "Finland", "芬兰"),
        ("FJ", "Fiji", "斐济"),
        ("FK", "Falkland Islands", "福克兰群岛"),
        ("FM", "Micronesia", "密克罗尼西亚"),
        ("FO", "Faroe Islands", "法罗群岛"),
        ("FR", "France", "法国"),
        ("GA", "Gabon", "加蓬"),
        ("GB", "United Kingdom", "英国"),
        ("GD", "Grenada", "格林纳达"),
        ("GE", "Georgia", "格鲁吉亚"),
        ("GF", "French Guiana", "法属圭亚那"),
        ("GG", "Guernsey", "根西"),
        ("GH", "Ghana", "加纳"),
        ("GI", "Gibraltar", "直布罗陀"),
        ("GL", "Greenland", "格陵兰"),
        ("GM", "Gambia", "冈比亚"),
        ("GN", "Guinea", "几内亚"),
        ("GP", "Guadeloupe", "瓜德罗普"),
        ("GQ", "Equatorial Guinea", "赤道几内亚"),
        ("GR", "Greece", "希腊"),
        ("GS", "South Georgia", "南乔治亚"),
        ("GT", "Guatemala", "危地马拉"),
        ("GU", "Guam", "关岛"),
        ("GW", "Guinea-Bissau", "几内亚比绍"),
        ("GY", "Guyana", "圭亚那"),
        ("HK", "Hong Kong", "香港"),
        ("HM", "Heard Island", "赫德岛"),
        ("HN", "Honduras", "洪都拉斯"),
        ("HR", "Croatia", "克罗地亚"),
        ("HT", "Haiti", "海地"),
        ("HU", "Hungary", "匈牙利"),
        ("ID", "Indonesia", "印度尼西亚"),
        ("IE", "Ireland", "爱尔兰"),
        ("IL", "Israel", "以色列"),
        ("IM", "Isle of Man", "马恩岛"),
        ("IN", "India", "印度"),
        ("IO", "British Indian Ocean Territory", "英属印度洋领地"),
        ("IQ", "Iraq", "伊拉克"),
        ("IR", "Iran", "伊朗"),
        ("IS", "Iceland", "冰岛"),
        ("IT", "Italy", "意大利"),
        ("JE", "Jersey", "泽西"),
        ("JM", "Jamaica", "牙买加"),
        ("JO", "Jordan", "约旦"),
        ("JP", "Japan", "日本"),
        ("KE", "Kenya", "肯尼亚"),
        ("KG", "Kyrgyzstan", "吉尔吉斯斯坦"),
        ("KH", "Cambodia", "柬埔寨"),
        ("KI", "Kiribati", "基里巴斯"),
        ("KM", "Comoros", "科摩罗"),
        ("KN", "Saint Kitts and Nevis", "圣基茨和尼维斯"),
        ("KP", "North Korea", "朝鲜"),
        ("KR", "South Korea", "韩国"),
        ("KW", "Kuwait", "科威特"),
        ("KY", "Cayman Islands", "开曼群岛"),
        ("KZ", "Kazakhstan", "哈萨克斯坦"),
        ("LA", "Laos", "老挝"),
        ("LB", "Lebanon", "黎巴嫩"),
        ("LC", "Saint Lucia", "圣卢西亚"),
        ("LI", "Liechtenstein", "列支敦士登"),
        ("LK", "Sri Lanka", "斯里兰卡"),
        ("LR", "Liberia", "利比里亚"),
        ("LS", "Lesotho", "莱索托"),
        ("LT", "Lithuania", "立陶宛"),
        ("LU", "Luxembourg", "卢森堡"),
        ("LV", "Latvia", "拉脱维亚"),
        ("LY", "Libya", "利比亚"),
        ("MA", "Morocco", "摩洛哥"),
        ("MC", "Monaco", "摩纳哥"),
        ("MD", "Moldova", "摩尔多瓦"),
        ("ME", "Montenegro", "黑山"),
        ("MF", "Saint Martin", "法属圣马丁"),
        ("MG", "Madagascar", "马达加斯加"),
        ("MH", "Marshall Islands", "马绍尔群岛"),
        ("MK", "North Macedonia", "北马其顿"),
        ("ML", "Mali", "马里"),
        ("MM", "Myanmar", "缅甸"),
        ("MN", "Mongolia", "蒙古"),
        ("MO", "Macao", "澳门"),
        ("MP", "Northern Mariana Islands", "北马里亚纳群岛"),
        ("MQ", "Martinique", "马提尼克"),
        ("MR", "Mauritania", "毛里塔尼亚"),
        ("MS", "Montserrat", "蒙特塞拉特"),
        ("MT", "Malta", "马耳他"),
        ("MU", "Mauritius", "毛里求斯"),
        ("MV", "Maldives", "马尔代夫"),
        ("MW", "Malawi", "马拉维"),
        ("MX", "Mexico", "墨西哥"),
        ("MY", "Malaysia", "马来西亚"),
        ("MZ", "Mozambique", "莫桑比克"),
        ("NA", "Namibia", "纳米比亚"),
        ("NC", "New Caledonia", "新喀里多尼亚"),
        ("NE", "Niger", "尼日尔"),
        ("NF", "Norfolk Island", "诺福克岛"),
        ("NG", "Nigeria", "尼日利亚"),
        ("NI", "Nicaragua", "尼加拉瓜"),
        ("NL", "Netherlands", "荷兰"),
        ("NO", "Norway", "挪威"),
        ("NP", "Nepal", "尼泊尔"),
        ("NR", "Nauru", "瑙鲁"),
        ("NU", "Niue", "纽埃"),
        ("NZ", "New Zealand", "新西兰"),
        ("OM", "Oman", "阿曼"),
        ("PA", "Panama", "巴拿马"),
        ("PE", "Peru", "秘鲁"),
        ("PF", "French Polynesia", "法属波利尼西亚"),
        ("PG", "Papua New Guinea", "巴布亚新几内亚"),
        ("PH", "Philippines", "菲律宾"),
        ("PK", "Pakistan", "巴基斯坦"),
        ("PL", "Poland", "波兰"),
        ("PM", "Saint Pierre and Miquelon", "圣皮埃尔和密克隆"),
        ("PN", "Pitcairn Islands", "皮特凯恩群岛"),
        ("PR", "Puerto Rico", "波多黎各"),
        ("PS", "Palestine", "巴勒斯坦"),
        ("PT", "Portugal", "葡萄牙"),
        ("PW", "Palau", "帕劳"),
        ("PY", "Paraguay", "巴拉圭"),
        ("QA", "Qatar", "卡塔尔"),
        ("RE", "Réunion", "留尼汪"),
        ("RO", "Romania", "罗马尼亚"),
        ("RS", "Serbia", "塞尔维亚"),
        ("RU", "Russia", "俄罗斯"),
        ("RW", "Rwanda", "卢旺达"),
        ("SA", "Saudi Arabia", "沙特阿拉伯"),
        ("SB", "Solomon Islands", "所罗门群岛"),
        ("SC", "Seychelles", "塞舌尔"),
        ("SD", "Sudan", "苏丹"),
        ("SE", "Sweden", "瑞典"),
        ("SG", "Singapore", "新加坡"),
        ("SH", "Saint Helena", "圣赫勒拿"),
        ("SI", "Slovenia", "斯洛文尼亚"),
        ("SJ", "Svalbard and Jan Mayen", "斯瓦尔巴和扬马延"),
        ("SK", "Slovakia", "斯洛伐克"),
        ("SL", "Sierra Leone", "塞拉利昂"),
        ("SM", "San Marino", "圣马力诺"),
        ("SN", "Senegal", "塞内加尔"),
        ("SO", "Somalia", "索马里"),
        ("SR", "Suriname", "苏里南"),
        ("SS", "South Sudan", "南苏丹"),
        ("ST", "São Tomé and Príncipe", "圣多美和普林西比"),
        ("SV", "El Salvador", "萨尔瓦多"),
        ("SX", "Sint Maarten", "荷属圣马丁"),
        ("SY", "Syria", "叙利亚"),
        ("SZ", "Eswatini", "斯威士兰"),
        ("TC", "Turks and Caicos Islands", "特克斯和凯科斯群岛"),
        ("TD", "Chad", "乍得"),
        ("TF", "French Southern Territories", "法属南方领地"),
        ("TG", "Togo", "多哥"),
        ("TH", "Thailand", "泰国"),
        ("TJ", "Tajikistan", "塔吉克斯坦"),
        ("TK", "Tokelau", "托克劳"),
        ("TL", "Timor-Leste", "东帝汶"),
        ("TM", "Turkmenistan", "土库曼斯坦"),
        ("TN", "Tunisia", "突尼斯"),
        ("TO", "Tonga", "汤加"),
        ("TR", "Türkiye", "土耳其"),
        ("TT", "Trinidad and Tobago", "特立尼达和多巴哥"),
        ("TV", "Tuvalu", "图瓦卢"),
        ("TW", "Taiwan", "台湾"),
        ("TZ", "Tanzania", "坦桑尼亚"),
        ("UA", "Ukraine", "乌克兰"),
        ("UG", "Uganda", "乌干达"),
        ("UM", "U.S. Outlying Islands", "美国本土外小岛屿"),
        ("US", "United States", "美国"),
        ("UY", "Uruguay", "乌拉圭"),
        ("UZ", "Uzbekistan", "乌兹别克斯坦"),
        ("VA", "Vatican City", "梵蒂冈"),
        ("VC", "Saint Vincent and the Grenadines", "圣文森特和格林纳丁斯"),
        ("VE", "Venezuela", "委内瑞拉"),
        ("VG", "British Virgin Islands", "英属维尔京群岛"),
        ("VI", "U.S. Virgin Islands", "美属维尔京群岛"),
        ("VN", "Vietnam", "越南"),
        ("VU", "Vanuatu", "瓦努阿图"),
        ("WF", "Wallis and Futuna", "瓦利斯和富图纳"),
        ("WS", "Samoa", "萨摩亚"),
        ("XK", "Kosovo", "科索沃"),
        ("YE", "Yemen", "也门"),
        ("YT", "Mayotte", "马约特"),
        ("ZA", "South Africa", "南非"),
        ("ZM", "Zambia", "赞比亚"),
        ("ZW", "Zimbabwe", "津巴布韦"),
    ];
    assert(r@ =~= country_entries());
    r
}

/// The country table as text.
pub open spec fn country_names() -> Seq<(Seq<char>, Seq<char>, Seq<char>)> {
    country_entries().map_values(|e: (&'static str, &'static str, &'static str)| (e.0@, e.1@, e.2@))
}

/// Name of the first table entry with this code, in English or Chinese.
pub open spec fn country_name(t: Seq<(Seq<char>, Seq<char>, Seq<char>)>, code: Seq<char>, zh: bool) -> Option<Seq<char>>
    decreases t.len(),
{
    if t.len() == 0 {
        None
    } else if t[0].0 == code {
        Some(if zh { t[0].2 } else { t[0].1 })
    } else {
        country_name(t.drop_first(), code, zh)
    }
}

/// The English (or Chinese) name of an upper-case ISO-2 code.
pub fn lookup_country_name(code: &str, zh: bool) -> (r: Option<&'static str>)
    ensures
        match r {
            Some(n) => country_name(country_names(), code@, zh) == Some(n@),
            None => country_name(country_names(), code@, zh) is None,
        },
{
    let table = country_table();
    let ghost tv = table@.map_values(|e: (&'static str, &'static str, &'static str)| (e.0@, e.1@, e.2@));
    let mut i: usize = 0;
    assert(tv.subrange(0, tv.len() as int) == tv);
    while i < table.len()
        invariant
            i <= table@.len(),
            tv == table@.map_values(|e: (&'static str, &'static str, &'static str)| (e.0@, e.1@, e.2@)),
            table@ == country_entries(),
            country_name(tv, code@, zh) == country_name(tv.subrange(i as int, tv.len() as int), code@, zh),
        decreases table.len() - i,
    {
        let (c, en, zh_name) = table[i];
        let ghost rest = tv.subrange(i as int, tv.len() as int);
        assert(rest[0] == tv[i as int]);
        if str_eq(c, code) {
            return Some(if zh { zh_name } else { en });
        }
        assert(rest.drop_first() == tv.subrange(i + 1, tv.len() as int));
        i = i + 1;
    }
    None
}

/// What `str::to_uppercase` returns for a text (full Unicode case
/// mapping).
pub uninterp spec fn unicode_upper(s: Seq<char>) -> Seq<char>;

/// `str::to_uppercase`. Nothing is stated of the mapping beyond its name.
#[verifier::external_body]
pub(crate) fn to_uppercase(s: &str) -> (r: String)
    ensures
        r@ == unicode_upper(s@),
{
    s.to_uppercase()
}

/// Localised display name of an upper-cased, trimmed ISO-2 code: `—` for
/// an empty code, the table name in the locale's language, else the code
/// itself.
pub open spec fn country_display_code(code: Seq<char>, locale: Locale) -> Seq<char> {
    if code.len() == 0 {
        "—"@
    } else {
        match country_name(country_names(), code, locale == Locale::Zh) {
            Some(n) => n,
            None => code,
        }
    }
}

/// Localised display name of an ISO-2 code as the card shows it: the code
/// is trimmed and upper-cased first.
pub open spec fn country_display(iso2: Seq<char>, locale: Locale) -> Seq<char> {
    country_display_code(unicode_upper(trim(iso2)), locale)
}

/// Display name of an already trimmed and upper-cased code.
pub fn country_display_from_upper(code: &str, locale: &Locale) -> (r: String)
    ensures
        r@ == country_display_code(code@, *locale),
{
    if code.is_empty() {
        return crate::text::owned("—");
    }
    let zh = match locale {
        Locale::Zh => true,
        Locale::En => false,
    };
    match lookup_country_name(code, zh) {
        Some(n) => crate::text::owned(n),
        None => crate::text::owned(code),
    }
}

/// Country name shown on the IP-info card.
pub fn country_display_name(iso2: &str, locale: &Locale) -> (r: String)
    ensures
        r@ == country_display(iso2@, *locale),
{
    let v = chars_of(iso2);
    let t = string_of(trim_chars(v.as_slice()).as_slice());
    let code = to_uppercase(t.as_str());
    country_display_from_upper(code.as_str(), locale)
}

/// The mode, GLOBAL node and network switches that the Home page shows,
/// updated at once when the user acts and put back when the core refuses.
#[derive(Debug, Clone)]
pub struct Controls {
    /// The core's proxy mode (`rule`, `global`, `direct`), if known.
    pub mode: Option<String>,
    /// The node selected in the GLOBAL group, if known.
    pub global_now: Option<String>,
    pub tun_enabled: bool,
    pub system_proxy_on: bool,
}

/// Optional text, by its view.
pub open spec fn opt_text(o: Option<String>) -> Option<Seq<char>> {
    match o {
        Some(s) => Some(s@),
        None => None,
    }
}

impl Controls {
    /// Nothing known yet; the system proxy as the preferences last saved it.
    pub fn new(system_proxy_saved: bool) -> (r: Self)
        ensures
            r.mode is None,
            r.global_now is None,
            !r.tun_enabled,
            r.system_proxy_on == system_proxy_saved,
    {
        Controls { mode: None, global_now: None, tun_enabled: false, system_proxy_on: system_proxy_saved }
    }

    /// The user picks a proxy mode. Returns whether the core must be told;
    /// picking the current mode does nothing.
    pub fn set_mode(&mut self, mode: &str) -> (send: bool)
        ensures
            send == (opt_text(old(self).mode) != Some(mode@)),
            opt_text(final(self).mode) == Some(mode@),
            final(self).global_now == old(self).global_now,
            final(self).tun_enabled == old(self).tun_enabled,
            final(self).system_proxy_on == old(self).system_proxy_on,
    {
        let same = match &self.mode {
            Some(m) => str_eq(m.as_str(), mode),
            None => false,
        };
        if same {
            return false;
        }
        self.mode = Some(crate::text::owned(mode));
        true
    }

    /// The core refused a mode change: forget the mode until the next poll.
    pub fn mode_change_failed(&mut self)
        ensures
            final(self).mode is None,
            final(self).global_now == old(self).global_now,
            final(self).tun_enabled == old(self).tun_enabled,
            final(self).system_proxy_on == old(self).system_proxy_on,
    {
        self.mode = None;
    }

    /// The user picks a GLOBAL node. Returns whether the core must be told.
    pub fn set_global_node(&mut self, name: &str) -> (send: bool)
        ensures
            send == (opt_text(old(self).global_now) != Some(name@)),
            opt_text(final(self).global_now) == Some(name@),
            final(self).mode == old(self).mode,
            final(self).tun_enabled == old(self).tun_enabled,
            final(self).system_proxy_on == old(self).system_proxy_on,
    {
        let same = match &self.global_now {
            Some(m) => str_eq(m.as_str(), name),
            None => false,
        };
        if same {
            return false;
        }
        self.global_now = Some(crate::text::owned(name));
        true
    }

    /// A switch is flipped by the user; the change is shown at once.
    pub fn flip(&mut self, toggle: Toggle)
        ensures
            *final(self) == flipped(*old(self), toggle),
    {
        match toggle {
            Toggle::Tun(on) => self.tun_enabled = on,
            Toggle::SystemProxy(on) => self.system_proxy_on = on,
        }
    }

    /// Flipping a switch failed: it is shown the other way again.
    pub fn flip_failed(&mut self, toggle: Toggle)
        ensures
            *final(self) == reverted(*old(self), toggle),
    {
        match toggle {
            Toggle::Tun(on) => self.tun_enabled = !on,
            Toggle::SystemProxy(on) => self.system_proxy_on = !on,
        }
    }

    /// A poll of the core answered: its mode, GLOBAL node and TUN state
    /// replace what was shown.
    pub fn apply_poll(&mut self, mode: String, global_now: Option<String>, tun_enabled: bool)
        ensures
            final(self).mode == Some(mode),
            final(self).global_now == global_now,
            final(self).tun_enabled == tun_enabled,
            final(self).system_proxy_on == old(self).system_proxy_on,
    {
        self.mode = Some(mode);
        self.global_now = global_now;
        self.tun_enabled = tun_enabled;
    }
}

/// The controls with a switch set as `toggle` asks.
pub open spec fn flipped(c: Controls, toggle: Toggle) -> Controls {
    match toggle {
        Toggle::Tun(on) => Controls { tun_enabled: on, ..c },
        Toggle::SystemProxy(on) => Controls { system_proxy_on: on, ..c },
    }
}

/// The controls with a switch set against what `toggle` asked.
pub open spec fn reverted(c: Controls, toggle: Toggle) -> Controls {
    match toggle {
        Toggle::Tun(on) => Controls { tun_enabled: !on, ..c },
        Toggle::SystemProxy(on) => Controls { system_proxy_on: !on, ..c },
    }
}

/// A flip that changes a switch and then fails leaves the controls as
/// they were.
pub proof fn lemma_failed_flip_restores(c: Controls, toggle: Toggle)
    requires
        toggle matches Toggle::Tun(on) ==> c.tun_enabled == !on,
        toggle matches Toggle::SystemProxy(on) ==> c.system_proxy_on == !on,
    ensures
        reverted(flipped(c, toggle), toggle) == c,
{
}

/// State of one site test.
#[derive(Debug, Clone, Copy, PartialEq, Eq, Structural)]
pub enum TestState {
    Idle,
    Testing,
    Measured(u32),
    Failed,
}

/// A site whose latency through the proxy can be tested.
#[derive(Debug, Clone)]
pub struct SiteTest {
    pub name: &'static str,
    pub url: &'static str,
    /// Stem of its icon file, if it has one.
    pub icon_stem: Option<&'static str>,
    pub state: TestState,
}

/// The sites offered: (name, URL, icon stem).
pub open spec fn site_list() -> Seq<(Seq<char>, Seq<char>, Option<Seq<char>>)> {
    seq![
        ("Apple"@, "https://www.apple.com"@, Some("苹果"@)),
        ("GitHub"@, "https://github.com"@, None),
        ("Google"@, "https://www.google.com"@, Some("谷歌"@)),
        ("YouTube"@, "https://www.youtube.com"@, Some("谷歌"@)),
    ]
}

/// The view of a site.
pub open spec fn site_view(s: SiteTest) -> (Seq<char>, Seq<char>, Option<Seq<char>>) {
    (s.name@, s.url@, match s.icon_stem {
        Some(t) => Some(t@),
        None => None,
    })
}

/// The sites, none tested yet.
pub fn default_sites() -> (r: Vec<SiteTest>)
    ensures
        r@.len() == site_list().len(),
        forall|i: int| 0 <= i < r@.len() ==> site_view(#[trigger] r@[i]) == site_list()[i] && r@[i].state
            == TestState::Idle,
{
    vec![
        SiteTest { name: "Apple", url: "https://www.apple.com", icon_stem: Some("苹果"), state: TestState::Idle },
        SiteTest { name: "GitHub", url: "https://github.com", icon_stem: None, state: TestState::Idle },
        SiteTest { name: "Google", url: "https://www.google.com", icon_stem: Some("谷歌"), state: TestState::Idle },
        SiteTest { name: "YouTube", url: "https://www.youtube.com", icon_stem: Some("谷歌"), state: TestState::Idle },
    ]
}

/// Starts the test of site `idx`: it shows as testing, and its URL is
/// returned to be measured; nothing happens for an index out of range.
pub fn begin_site_test(sites: &mut Vec<SiteTest>, idx: usize) -> (r: Option<&'static str>)
    ensures
        idx >= old(sites)@.len() ==> r is None && final(sites)@ == old(sites)@,
        idx < old(sites)@.len() ==> (r matches Some(u) && u@ == old(sites)@[idx as int].url@)
            && final(sites)@ == old(sites)@.update(
            idx as int,
            SiteTest { state: TestState::Testing, ..old(sites)@[idx as int] },
        ),
{
    if idx >= sites.len() {
        return None;
    }
    let old_site = &sites[idx];
    let url = old_site.url;
    let site = SiteTest {
        name: old_site.name,
        url: old_site.url,
        icon_stem: old_site.icon_stem,
        state: TestState::Testing,
    };
    sites.set(idx, site);
    Some(url)
}

/// Records the outcome of site `idx`'s test: its latency in milliseconds,
/// or a failure.
pub fn finish_site_test(sites: &mut Vec<SiteTest>, idx: usize, outcome: Option<u32>)
    ensures
        idx >= old(sites)@.len() ==> final(sites)@ == old(sites)@,
        idx < old(sites)@.len() ==> final(sites)@ == old(sites)@.update(
            idx as int,
            SiteTest {
                state: match outcome {
                    Some(ms) => TestState::Measured(ms),
                    None => TestState::Failed,
                },
                ..old(sites)@[idx as int]
            },
        ),
{
    if idx >= sites.len() {
        return;
    }
    let old_site = &sites[idx];
    let site = SiteTest {
        name: old_site.name,
        url: old_site.url,
        icon_stem: old_site.icon_stem,
        state: match outcome {
            Some(ms) => TestState::Measured(ms),
            None => TestState::Failed,
        },
    };
    sites.set(idx, site);
}

/// Bytes of the UTF-8 encoding of a character.
pub open spec fn utf8_width(c: char) -> nat {
    if (c as u32) < 0x80 {
        1
    } else if (c as u32) < 0x800 {
        2
    } else if (c as u32) < 0x10000 {
        3
    } else {
        4
    }
}

/// Bytes of the UTF-8 encoding of a text (`str::len`).
pub open spec fn utf8_len(s: Seq<char>) -> nat
    decreases s.len(),
{
    if s.len() == 0 {
        0
    } else {
        utf8_len(s.drop_last()) + utf8_width(s.last())
    }
}

fn utf8_len_of(v: &[char]) -> (r: usize)
    ensures
        r == utf8_len(v@) || (r > 2 && utf8_len(v@) > 2),
{
    let mut n: usize = 0;
    let mut i: usize = 0;
    while i < v.len()
        invariant
            i <= v@.len(),
            n == utf8_len(v@.take(i as int)) || (n > 2 && utf8_len(v@.take(i as int)) > 2),
            n <= 3,
        decreases v.len() - i,
    {
        assert(v@.take(i + 1).drop_last() == v@.take(i as int));
        let c = v[i];
        let w: usize = if (c as u32) < 0x80 {
            1
        } else if (c as u32) < 0x800 {
            2
        } else if (c as u32) < 0x10000 {
            3
        } else {
            4
        };
        n = if n + w > 3 { 3 } else { n + w };
        i = i + 1;
    }
    assert(v@.take(v@.len() as int) == v@);
    n
}

/// The service icon file of a stem: `<cwd>/icons/<stem>.svg` (shown when
/// it exists).
pub fn service_icon_file(cwd: &str, stem: &str) -> (r: String)
    ensures
        r@ == crate::paths::path_join(crate::paths::path_join(cwd@, "icons"@), stem@ + ".svg"@),
{
    let dir = crate::paths::join(cwd, "icons");
    let name = crate::text::concat2(stem, ".svg");
    crate::paths::join(dir.as_str(), name.as_str())
}

/// The flag file of an ISO-2 code: `<cwd>/icons/country/<code>.svg` with
/// the trimmed code lower-cased (shown when it exists); none unless the
/// trimmed code is two bytes long.
pub open spec fn flag_file_for(cwd: Seq<char>, iso2: Seq<char>) -> Option<Seq<char>> {
    let code = trim(iso2);
    if utf8_len(code) != 2 {
        None
    } else {
        Some(
            crate::paths::path_join(
                crate::paths::path_join(cwd, "icons/country"@),
                crate::proxies::unicode_lower(code) + ".svg"@,
            ),
        )
    }
}

/// The flag file to show for an ISO-2 code.
pub fn country_flag_file(cwd: &str, iso2: &str) -> (r: Option<String>)
    ensures
        match flag_file_for(cwd@, iso2@) {
            Some(p) => r matches Some(f) && f@ == p,
            None => r is None,
        },
{
    let v = chars_of(iso2);
    let code = trim_chars(v.as_slice());
    if utf8_len_of(code.as_slice()) != 2 {
        return None;
    }
    let code_s = string_of(code.as_slice());
    let lower = crate::proxies::to_lowercase(code_s.as_str());
    let name = crate::text::concat2(lower.as_str(), ".svg");
    let dir = crate::paths::join(cwd, "icons/country");
    Some(crate::paths::join(dir.as_str(), name.as_str()))
}

/// What an IP-lookup service says about the proxy's exit address.
#[derive(Debug, Clone)]
pub struct IpInfo {
    pub ip: Option<String>,
    pub city: Option<String>,
    pub region: Option<String>,
    /// An ISO-2 code or a full country name, depending on the service.
    pub country: Option<String>,
    pub country_code: Option<String>,
    pub org: Option<String>,
    pub timezone: Option<String>,
}

/// The texts of the IP-info card.
#[derive(Debug, Clone)]
pub struct IpCard {
    /// The upper-case ISO-2 code, or empty when none is known.
    pub iso2: String,
    /// The flag file to show when it exists.
    pub flag: Option<String>,
    pub country_label: String,
    pub location: String,
    pub ip_text: String,
    pub org: String,
    pub timezone: String,
}

/// The lookup services, in the order they are tried; the first answer
/// that parses wins.
pub open spec fn ip_endpoints() -> Seq<Seq<char>> {
    seq!["https://api.ip.sb/geoip"@, "https://ipapi.co/json/"@, "https://ipinfo.io/json"@]
}

/// The lookup services, in the order they are tried.
pub fn ip_info_endpoints() -> (r: Vec<&'static str>)
    ensures
        r@.map_values(|s: &'static str| s@) == ip_endpoints(),
{
    let r = vec!["https://api.ip.sb/geoip", "https://ipapi.co/json/", "https://ipinfo.io/json"];
    assert(r@.map_values(|s: &'static str| s@) =~= ip_endpoints());
    r
}

/// The ISO-2 code of the card: the `country_code` field, else `country`
/// when it is two bytes long once trimmed; trimmed and upper-cased.
pub open spec fn ip_iso2(info: IpInfo) -> Seq<char> {
    match opt_text(info.country_code) {
        Some(cc) => unicode_upper(trim(cc)),
        None => match opt_text(info.country) {
            Some(c) => if utf8_len(trim(c)) == 2 {
                unicode_upper(trim(c))
            } else {
                Seq::empty()
            },
            None => Seq::empty(),
        },
    }
}

/// The country shown under the flag: the display name of the code when
/// there is one, else the non-blank `country` field, else `—`.
pub open spec fn ip_country_label(info: IpInfo, iso2: Seq<char>, locale: Locale) -> Seq<char> {
    if iso2.len() > 0 {
        country_display(iso2, locale)
    } else {
        match opt_text(info.country) {
            Some(c) => if trim(c).len() > 0 {
                c
            } else {
                "—"@
            },
            None => "—"@,
        }
    }
}

/// `city, region` when both are known and differ, else the one known,
/// else `—`.
pub open spec fn location_text(city: Option<Seq<char>>, region: Option<Seq<char>>) -> Seq<char> {
    match (city, region) {
        (Some(c), Some(r)) => if c != r {
            c + ", "@ + r
        } else {
            c
        },
        (Some(c), None) => c,
        (None, Some(r)) => r,
        (None, None) => "—"@,
    }
}

/// The address as shown: itself, eight dots while hidden, or `—`.
pub open spec fn masked_ip(ip: Option<Seq<char>>, show: bool) -> Seq<char> {
    match ip {
        Some(i) => if show {
            i
        } else {
            "••••••••"@
        },
        None => "—"@,
    }
}

/// A value, or `—` when unknown.
pub open spec fn or_dash(o: Option<Seq<char>>) -> Seq<char> {
    match o {
        Some(v) => v,
        None => "—"@,
    }
}

fn text_or_dash(o: &Option<String>) -> (r: String)
    ensures
        r@ == or_dash(opt_text(*o)),
{
    match o {
        Some(v) => crate::text::owned(v.as_str()),
        None => crate::text::owned("—"),
    }
}

fn iso2_of(info: &IpInfo) -> (r: String)
    ensures
        r@ == ip_iso2(*info),
{
    match &info.country_code {
        Some(cc) => {
            let v = chars_of(cc.as_str());
            let t = string_of(trim_chars(v.as_slice()).as_slice());
            to_uppercase(t.as_str())
        },
        None => match &info.country {
            Some(c) => {
                let v = chars_of(c.as_str());
                let t = trim_chars(v.as_slice());
                if utf8_len_of(t.as_slice()) == 2 {
                    let ts = string_of(t.as_slice());
                    to_uppercase(ts.as_str())
                } else {
                    String::new()
                }
            },
            None => String::new(),
        },
    }
}

/// The texts of the IP-info card for a lookup answer, whether the address
/// is shown, the UI language and the working directory (for the flag).
pub fn ip_card(info: &IpInfo, show_ip: bool, locale: &Locale, cwd: &str) -> (r: IpCard)
    ensures
        r.iso2@ == ip_iso2(*info),
        match flag_file_for(cwd@, r.iso2@) {
            Some(p) => r.flag matches Some(f) && f@ == p,
            None => r.flag is None,
        },
        r.country_label@ == ip_country_label(*info, r.iso2@, *locale),
        r.location@ == location_text(opt_text(info.city), opt_text(info.region)),
        r.ip_text@ == masked_ip(opt_text(info.ip), show_ip),
        r.org@ == or_dash(opt_text(info.org)),
        r.timezone@ == or_dash(opt_text(info.timezone)),
{
    let iso2 = iso2_of(info);
    let flag = country_flag_file(cwd, iso2.as_str());
    let country_label = if !iso2.as_str().is_empty() {
        country_display_name(iso2.as_str(), locale)
    } else {
        match &info.country {
            Some(c) => {
                let v = chars_of(c.as_str());
                if trim_chars(v.as_slice()).len() > 0 {
                    crate::text::owned(c.as_str())
                } else {
                    crate::text::owned("—")
                }
            },
            None => crate::text::owned("—"),
        }
    };
    let location = match (&info.city, &info.region) {
        (Some(c), Some(r)) => {
            if !crate::text::str_eq(c.as_str(), r.as_str()) {
                crate::text::concat3(c.as_str(), ", ", r.as_str())
            } else {
                crate::text::owned(c.as_str())
            }
        },
        (Some(c), None) => crate::text::owned(c.as_str()),
        (None, Some(r)) => crate::text::owned(r.as_str()),
        (None, None) => crate::text::owned("—"),
    };
    let ip_text = match &info.ip {
        Some(i) => if show_ip {
            crate::text::owned(i.as_str())
        } else {
            crate::text::owned("••••••••")
        },
        None => crate::text::owned("—"),
    };
    IpCard {
        iso2,
        flag,
        country_label,
        location,
        ip_text,
        org: text_or_dash(&info.org),
        timezone: text_or_dash(&info.timezone),
    }
}

} // verus!
