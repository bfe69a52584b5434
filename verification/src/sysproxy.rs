//! System-proxy toggle. macOS drives `networksetup` for every active
//! network service; Windows writes the per-user Internet Settings. This
//! module decides what to run or write and reads the answers; running the
//! commands and touching the registry is left to the caller.

use vstd::prelude::*;

use crate::subscription::parse_u64;
use crate::text::{
    ascii_lower, chars_of, dec, find_char, first_index_of, has_prefix, lemma_first_index_of,
    matches_at, push_decimal, push_str, slice_chars, str_eq, string_of, to_ascii_lower, trim,
    trim_chars,
};

verus! {

/// Hosts that bypass the proxy (loopback, private ranges, local names).
pub open spec fn default_bypass() -> Seq<Seq<char>> {
    seq![
        "127.0.0.1"@,
        "192.168.0.0/16"@,
        "10.0.0.0/8"@,
        "172.16.0.0/12"@,
        "localhost"@,
        "*.local"@,
        "*.crashlytics.com"@,
        "<local>"@,
    ]
}

/// The bypass list, in order.
pub fn default_bypass_list() -> (r: Vec<&'static str>)
    ensures
        r@.map_values(|s: &'static str| s@) == default_bypass(),
{
    let r = vec![
        "127.0.0.1",
        "192.168.0.0/16",
        "10.0.0.0/8",
        "172.16.0.0/12",
        "localhost",
        "*.local",
        "*.crashlytics.com",
        "<local>",
    ];
    assert(r@.map_values(|s: &'static str| s@) =~= default_bypass());
    r
}

/// Why the system proxy could not be changed.
#[derive(Debug, Clone, Copy, PartialEq, Eq, Structural)]
pub enum SysProxyError {
    /// This platform has no system-proxy backend.
    Unsupported,
}

/// Turns the OS-level proxy on: the variant for platforms other than
/// macOS and Windows, which have no backend, so it always fails. On macOS
/// the app runs `macos_enable_commands` for each service; on Windows the
/// values written are those of `windows_enable`.
pub fn enable(host: &str, port: u16) -> (r: Result<(), SysProxyError>)
    ensures
        r == Err::<(), SysProxyError>(SysProxyError::Unsupported),
{
    Err(SysProxyError::Unsupported)
}

/// Turns the OS-level proxy off: the variant for platforms other than
/// macOS and Windows, so it always fails. On macOS the app runs
/// `macos_disable_commands`; on Windows the values are those of
/// `windows_disable`.
pub fn disable() -> (r: Result<(), SysProxyError>)
    ensures
        r == Err::<(), SysProxyError>(SysProxyError::Unsupported),
{
    Err(SysProxyError::Unsupported)
}

/// Is the OS-level proxy on and pointing at `host:port`? The variant for
/// platforms other than macOS and Windows, where it is never on. On macOS
/// the app asks `web_proxy_matches` of each service's answer; on Windows
/// it is `windows_is_enabled` of the stored values.
pub fn is_enabled(host: &str, port: u16) -> (r: bool)
    ensures
        !r,
{
    false
}

/// Text of an error.
pub fn error_message(e: SysProxyError) -> (r: String)
    ensures
        e == SysProxyError::Unsupported ==> r@
            == "system proxy toggle is not implemented on this platform yet"@,
{
    crate::text::owned("system proxy toggle is not implemented on this platform yet")
}

/// `l` without one trailing `\r`.
pub open spec fn strip_cr(l: Seq<char>) -> Seq<char> {
    if l.len() > 0 && l.last() == '\r' {
        l.drop_last()
    } else {
        l
    }
}

/// `str::lines`: pieces split at `\n`, a `\r` before the `\n` removed, no
/// empty piece after a final `\n`.
#[verifier::opaque]
pub open spec fn lines(s: Seq<char>) -> Seq<Seq<char>>
    decreases s.len(),
{
    if s.len() == 0 {
        Seq::empty()
    } else {
        match first_index_of(s, '\n') {
            None => seq![s],
            Some(i) => {
                proof {
                    lemma_first_index_of(s, '\n');
                }
                seq![strip_cr(s.subrange(0, i))] + lines(s.subrange(i + 1, s.len() as int))
            },
        }
    }
}

/// One unfolding of `lines`.
pub proof fn lemma_lines_step(s: Seq<char>)
    ensures
        s.len() == 0 ==> lines(s) == Seq::<Seq<char>>::empty(),
        (s.len() > 0 && first_index_of(s, '\n') is None) ==> lines(s) == seq![s],
        (s.len() > 0 && first_index_of(s, '\n') is Some) ==> lines(s) == seq![
            strip_cr(s.subrange(0, first_index_of(s, '\n').unwrap()))
        ] + lines(s.subrange(first_index_of(s, '\n').unwrap() + 1, s.len() as int)),
{
    reveal(lines);
}

/// Splits text into lines as `str::lines` does.
pub fn split_lines(s: &[char]) -> (r: Vec<Vec<char>>)
    ensures
        r@.len() == lines(s@).len(),
        forall|k: int| 0 <= k < r@.len() ==> (#[trigger] r@[k])@ == lines(s@)[k],
{
    let mut out: Vec<Vec<char>> = Vec::new();
    let n = s.len();
    let mut start: usize = 0;
    let ghost mut acc: Seq<Seq<char>> = Seq::empty();
    assert(s@.subrange(0, n as int) == s@);
    loop
        invariant
            start <= n == s@.len(),
            out@.len() == acc.len(),
            forall|k: int| 0 <= k < out@.len() ==> (#[trigger] out@[k])@ == acc[k],
            acc + lines(s@.subrange(start as int, n as int)) == lines(s@),
        decreases n - start,
    {
        let rest = slice_chars(s, start, n);
        proof {
            lemma_lines_step(rest@);
        }
        if rest.len() == 0 {
            assert(acc + Seq::<Seq<char>>::empty() == acc);
            return out;
        }
        match find_char(rest.as_slice(), '\n') {
            None => {
                let ghost rv = rest@;
                out.push(rest);
                proof {
                    assert(acc + seq![rv] == acc.push(rv));
                    acc = acc.push(rv);
                }
                return out;
            },
            Some(i) => {
                let mut line = slice_chars(rest.as_slice(), 0, i);
                if line.len() > 0 && line[line.len() - 1] == '\r' {
                    line.pop();
                }
                let ghost lv = line@;
                assert(lv == strip_cr(rest@.subrange(0, i as int)));
                out.push(line);
                proof {
                    let tail = s@.subrange(start + i + 1, n as int);
                    assert(rest@.subrange(i + 1, rest@.len() as int) == tail);
                    assert(acc.push(lv) + lines(tail) == acc + (seq![lv] + lines(tail)));
                    acc = acc.push(lv);
                }
                start = start + i + 1;
            },
        }
    }
}

/// The active network services in a `networksetup -listallnetworkservices`
/// listing: every line after the banner, trimmed, except empty ones and
/// disabled ones (marked with a leading `*`).
pub open spec fn services_in(ls: Seq<Seq<char>>, from: int) -> Seq<Seq<char>>
    decreases ls.len() - from,
{
    if from >= ls.len() {
        Seq::empty()
    } else {
        let t = trim(ls[from]);
        let keep = from != 0 && t.len() > 0 && t[0] != '*';
        (if keep {
            seq![t]
        } else {
            Seq::empty()
        }) + services_in(ls, from + 1)
    }
}

/// Parses the service listing printed by `networksetup`.
pub fn active_services(listing: &str) -> (r: Vec<String>)
    ensures
        r@.map_values(|s: String| s@) == services_in(lines(listing@), 0),
{
    let v = chars_of(listing);
    let ls = split_lines(v.as_slice());
    let ghost lv = lines(v@);
    let mut out: Vec<String> = Vec::new();
    let mut i: usize = 0;
    while i < ls.len()
        invariant
            i <= ls@.len(),
            ls@.len() == lv.len(),
            forall|k: int| 0 <= k < ls@.len() ==> (#[trigger] ls@[k])@ == lv[k],
            lv == lines(listing@),
            out@.map_values(|s: String| s@) + services_in(lv, i as int) == services_in(lv, 0),
        decreases ls.len() - i,
    {
        let t = trim_chars(ls[i].as_slice());
        assert(lv[i as int] == ls@[i as int]@);
        let ghost before = out@.map_values(|s: String| s@);
        if i != 0 && t.len() > 0 && t[0] != '*' {
            out.push(string_of(t.as_slice()));
            assert(out@.map_values(|s: String| s@) =~= before.push(t@));
            assert(before.push(t@) + services_in(lv, i + 1) =~= before + (seq![t@] + services_in(lv, i + 1)));
        } else {
            assert(before + services_in(lv, i + 1) =~= before + (Seq::<Seq<char>>::empty() + services_in(lv, i + 1)));
        }
        i = i + 1;
    }
    assert(out@.map_values(|s: String| s@) + Seq::<Seq<char>>::empty() == out@.map_values(|s: String| s@));
    out
}

/// `str::parse::<u16>`.
pub open spec fn parse_u16(s: Seq<char>) -> Option<u16> {
    match parse_u64(s) {
        Some(v) => if v <= 65535 {
            Some(v as u16)
        } else {
            None
        },
        None => None,
    }
}

/// ASCII case-insensitive equality.
pub open spec fn eq_ignore_ascii_case(a: Seq<char>, b: Seq<char>) -> bool {
    a.len() == b.len() && forall|i: int| 0 <= i < a.len() ==> ascii_lower(#[trigger] a[i]) == ascii_lower(b[i])
}

/// Web-proxy settings read from `networksetup -getwebproxy`, line by line:
/// (enabled, server matches, port matches); a later line overrides.
pub open spec fn web_proxy_state(ls: Seq<Seq<char>>, host: Seq<char>, port: u16) -> (bool, bool, bool)
    decreases ls.len(),
{
    if ls.len() == 0 {
        (false, false, false)
    } else {
        let prev = web_proxy_state(ls.drop_last(), host, port);
        let t = trim(ls.last());
        if has_prefix(t, "Enabled:"@) {
            (eq_ignore_ascii_case(trim(t.subrange(8, t.len() as int)), "yes"@), prev.1, prev.2)
        } else if has_prefix(t, "Server:"@) {
            (prev.0, trim(t.subrange(7, t.len() as int)) == host, prev.2)
        } else if has_prefix(t, "Port:"@) {
            (prev.0, prev.1, parse_u16(trim(t.subrange(5, t.len() as int))) == Some(port))
        } else {
            prev
        }
    }
}

fn ascii_case_eq(a: &[char], b: &str) -> (r: bool)
    ensures
        r == eq_ignore_ascii_case(a@, b@),
{
    let bv = chars_of(b);
    if a.len() != bv.len() {
        return false;
    }
    let mut i: usize = 0;
    while i < a.len()
        invariant
            i <= a@.len(),
            a@.len() == bv@.len(),
            bv@ == b@,
            forall|k: int| 0 <= k < i ==> ascii_lower(#[trigger] a@[k]) == ascii_lower(bv@[k]),
        decreases a.len() - i,
    {
        if to_ascii_lower(a[i]) != to_ascii_lower(bv[i]) {
            return false;
        }
        i = i + 1;
    }
    true
}

fn parse_u16_chars(s: &[char]) -> (r: Option<u16>)
    ensures
        r == parse_u16(s@),
{
    match crate::subscription::parse_u64_chars(s) {
        Some(v) => if v <= 65535 {
            Some(v as u16)
        } else {
            None
        },
        None => None,
    }
}

/// Does one service's `-getwebproxy` answer show the proxy on and pointing
/// at `host:port`?
pub fn web_proxy_matches(output: &str, host: &str, port: u16) -> (r: bool)
    ensures
        r == ({
            let st = web_proxy_state(lines(output@), host@, port);
            st.0 && st.1 && st.2
        }),
{
    let v = chars_of(output);
    let hv = chars_of(host);
    let ls = split_lines(v.as_slice());
    let ghost lv = lines(v@);
    let en = chars_of("Enabled:");
    let sv = chars_of("Server:");
    let pv = chars_of("Port:");
    proof {
        reveal_strlit("Enabled:");
        reveal_strlit("Server:");
        reveal_strlit("Port:");
    }
    let mut on = false;
    let mut server_match = false;
    let mut port_match = false;
    let mut i: usize = 0;
    while i < ls.len()
        invariant
            i <= ls@.len(),
            ls@.len() == lv.len(),
            forall|k: int| 0 <= k < ls@.len() ==> (#[trigger] ls@[k])@ == lv[k],
            lv == lines(output@),
            hv@ == host@,
            en@ == "Enabled:"@,
            sv@ == "Server:"@,
            pv@ == "Port:"@,
            en@.len() == 8 && sv@.len() == 7 && pv@.len() == 5,
            (on, server_match, port_match) == web_proxy_state(lv.take(i as int), host@, port),
        decreases ls.len() - i,
    {
        let t = trim_chars(ls[i].as_slice());
        assert(lv.take(i + 1).drop_last() == lv.take(i as int));
        assert(lv.take(i + 1).last() == ls@[i as int]@);
        assert(t@.subrange(0, t@.len() as int) == t@);
        if matches_at(t.as_slice(), 0, en.as_slice()) {
            let rest = slice_chars(t.as_slice(), 8, t.len());
            let val = trim_chars(rest.as_slice());
            on = ascii_case_eq(val.as_slice(), "yes");
        } else if matches_at(t.as_slice(), 0, sv.as_slice()) {
            let rest = slice_chars(t.as_slice(), 7, t.len());
            let val = trim_chars(rest.as_slice());
            server_match = crate::text::same_chars(val.as_slice(), hv.as_slice());
        } else if matches_at(t.as_slice(), 0, pv.as_slice()) {
            let rest = slice_chars(t.as_slice(), 5, t.len());
            let val = trim_chars(rest.as_slice());
            port_match = match parse_u16_chars(val.as_slice()) {
                Some(p) => p == port,
                None => false,
            };
        }
        i = i + 1;
    }
    assert(lv.take(lv.len() as int) == lv);
    on && server_match && port_match
}

/// The `networksetup` argument lists that point service `svc` at
/// `host:port` for HTTP, HTTPS and SOCKS, then set the bypass list. The
/// first one is required: when it fails the service is skipped; the
/// others are best effort.
pub open spec fn enable_args(svc: Seq<char>, host: Seq<char>, port: u16) -> Seq<Seq<Seq<char>>> {
    let p = dec(port as nat);
    seq![
        seq!["-setwebproxy"@, svc, host, p],
        seq!["-setwebproxystate"@, svc, "on"@],
        seq!["-setsecurewebproxy"@, svc, host, p],
        seq!["-setsecurewebproxystate"@, svc, "on"@],
        seq!["-setsocksfirewallproxy"@, svc, host, p],
        seq!["-setsocksfirewallproxystate"@, svc, "on"@],
        seq!["-setproxybypassdomains"@, svc] + default_bypass(),
    ]
}

/// Is `flag` one of the switches that turn a proxy kind on or off?
pub open spec fn is_state_flag(flag: Seq<char>) -> bool {
    flag == "-setwebproxystate"@ || flag == "-setsecurewebproxystate"@ || flag
        == "-setsocksfirewallproxystate"@
}

/// Enabling the proxy on a service switches the HTTP, HTTPS and SOCKS
/// proxies on: each of the three state commands is in the list with `on`,
/// every state command in the list is `<flag> <svc> on`, and each one
/// comes after the command that sets that kind's server.
pub proof fn lemma_enable_switches_all_on(svc: Seq<char>, host: Seq<char>, port: u16)
    ensures
        enable_args(svc, host, port).contains(seq!["-setwebproxystate"@, svc, "on"@]),
        enable_args(svc, host, port).contains(seq!["-setsecurewebproxystate"@, svc, "on"@]),
        enable_args(svc, host, port).contains(seq!["-setsocksfirewallproxystate"@, svc, "on"@]),
        forall|i: int|
            0 <= i < enable_args(svc, host, port).len() && is_state_flag(
                #[trigger] enable_args(svc, host, port)[i][0],
            ) ==> enable_args(svc, host, port)[i] == seq![enable_args(svc, host, port)[i][0], svc, "on"@],
{
    reveal_strlit("-setwebproxy");
    reveal_strlit("-setwebproxystate");
    reveal_strlit("-setsecurewebproxy");
    reveal_strlit("-setsecurewebproxystate");
    reveal_strlit("-setsocksfirewallproxy");
    reveal_strlit("-setsocksfirewallproxystate");
    reveal_strlit("-setproxybypassdomains");
    let a = enable_args(svc, host, port);
    assert(a[1] == seq!["-setwebproxystate"@, svc, "on"@]);
    assert(a[3] == seq!["-setsecurewebproxystate"@, svc, "on"@]);
    assert(a[5] == seq!["-setsocksfirewallproxystate"@, svc, "on"@]);
    assert(a[0][0] == "-setwebproxy"@);
    assert(a[2][0] == "-setsecurewebproxy"@);
    assert(a[4][0] == "-setsocksfirewallproxy"@);
    assert(a[6][0] == "-setproxybypassdomains"@);
    assert("-setwebproxy"@.len() == 12 && "-setsecurewebproxy"@.len() == 18);
    assert("-setwebproxystate"@.len() == 17 && "-setsecurewebproxystate"@.len() == 23);
    assert("-setsocksfirewallproxystate"@.len() == 27);
    assert(!is_state_flag("-setwebproxy"@));
    assert(!is_state_flag("-setsecurewebproxy"@));
    assert(!is_state_flag("-setsocksfirewallproxy"@));
    assert(!is_state_flag("-setproxybypassdomains"@));
}

/// The view of a list of argument lists.
pub open spec fn args_view(a: Seq<Vec<String>>) -> Seq<Seq<Seq<char>>> {
    a.map_values(|v: Vec<String>| v@.map_values(|s: String| s@))
}

fn args2(a: &str, b: &str) -> (r: Vec<String>)
    ensures
        r@.map_values(|s: String| s@) == seq![a@, b@],
{
    let r = vec![crate::text::owned(a), crate::text::owned(b)];
    assert(r@.map_values(|s: String| s@) =~= seq![a@, b@]);
    r
}

fn args3(a: &str, b: &str, c: &str) -> (r: Vec<String>)
    ensures
        r@.map_values(|s: String| s@) == seq![a@, b@, c@],
{
    let r = vec![crate::text::owned(a), crate::text::owned(b), crate::text::owned(c)];
    assert(r@.map_values(|s: String| s@) =~= seq![a@, b@, c@]);
    r
}

fn args4(a: &str, b: &str, c: &str, d: &str) -> (r: Vec<String>)
    ensures
        r@.map_values(|s: String| s@) == seq![a@, b@, c@, d@],
{
    let r = vec![crate::text::owned(a), crate::text::owned(b), crate::text::owned(c), crate::text::owned(d)];
    assert(r@.map_values(|s: String| s@) =~= seq![a@, b@, c@, d@]);
    r
}

/// The commands that enable the proxy on one macOS network service.
pub fn macos_enable_commands(svc: &str, host: &str, port: u16) -> (r: Vec<Vec<String>>)
    ensures
        args_view(r@) == enable_args(svc@, host@, port),
{
    let p = crate::text::decimal_string(port as u64);
    let ps = p.as_str();
    let mut bypass = args2("-setproxybypassdomains", svc);
    let list = default_bypass_list();
    let mut i: usize = 0;
    while i < list.len()
        invariant
            i <= list@.len(),
            list@.map_values(|s: &'static str| s@) == default_bypass(),
            bypass@.map_values(|s: String| s@) == seq!["-setproxybypassdomains"@, svc@] + default_bypass().take(i as int),
        decreases list.len() - i,
    {
        let ghost before = bypass@.map_values(|s: String| s@);
        bypass.push(crate::text::owned(list[i]));
        assert(bypass@.map_values(|s: String| s@) =~= before.push(list@[i as int]@));
        assert(default_bypass().take(i + 1) =~= default_bypass().take(i as int).push(list@[i as int]@));
        i = i + 1;
    }
    assert(default_bypass().take(8) == default_bypass());
    let r = vec![
        args4("-setwebproxy", svc, host, ps),
        args3("-setwebproxystate", svc, "on"),
        args4("-setsecurewebproxy", svc, host, ps),
        args3("-setsecurewebproxystate", svc, "on"),
        args4("-setsocksfirewallproxy", svc, host, ps),
        args3("-setsocksfirewallproxystate", svc, "on"),
        bypass,
    ];
    assert(args_view(r@) =~= enable_args(svc@, host@, port));
    r
}

/// The commands that turn the proxy off on one macOS network service.
pub fn macos_disable_commands(svc: &str) -> (r: Vec<Vec<String>>)
    ensures
        args_view(r@) == seq![
            seq!["-setwebproxystate"@, svc@, "off"@],
            seq!["-setsecurewebproxystate"@, svc@, "off"@],
            seq!["-setsocksfirewallproxystate"@, svc@, "off"@],
        ],
{
    let r = vec![
        args3("-setwebproxystate", svc, "off"),
        args3("-setsecurewebproxystate", svc, "off"),
        args3("-setsocksfirewallproxystate", svc, "off"),
    ];
    assert(args_view(r@) =~= seq![
        seq!["-setwebproxystate"@, svc@, "off"@],
        seq!["-setsecurewebproxystate"@, svc@, "off"@],
        seq!["-setsocksfirewallproxystate"@, svc@, "off"@],
    ]);
    r
}

/// `host:port`, the proxy server value Windows stores.
pub open spec fn server_value(host: Seq<char>, port: u16) -> Seq<char> {
    host + seq![':'] + dec(port as nat)
}

/// The `ProxyServer` value for `host:port`.
pub fn windows_proxy_server(host: &str, port: u16) -> (r: String)
    ensures
        r@ == server_value(host@, port),
{
    let mut v = chars_of(host);
    v.push(':');
    push_decimal(&mut v, port as u64);
    string_of(v.as_slice())
}

/// `parts` joined with `;`.
pub open spec fn join_semi(parts: Seq<Seq<char>>) -> Seq<char>
    decreases parts.len(),
{
    if parts.len() == 0 {
        Seq::empty()
    } else if parts.len() == 1 {
        parts[0]
    } else {
        join_semi(parts.drop_last()) + seq![';'] + parts.last()
    }
}

/// The `ProxyOverride` value: the bypass list joined with `;`, with the
/// `<local>` sentinel appended when the list lacks it.
pub open spec fn override_value() -> Seq<char> {
    let parts = if default_bypass().contains("<local>"@) {
        default_bypass()
    } else {
        default_bypass().push("<local>"@)
    };
    join_semi(parts)
}

/// The `ProxyOverride` value Windows stores.
pub fn windows_bypass() -> (r: String)
    ensures
        r@ == override_value(),
{
    let list = default_bypass_list();
    let mut has_local = false;
    let mut i: usize = 0;
    while i < list.len()
        invariant
            i <= list@.len(),
            list@.map_values(|s: &'static str| s@) == default_bypass(),
            has_local == exists|k: int| 0 <= k < i && default_bypass()[k] == "<local>"@,
        decreases list.len() - i,
    {
        assert(default_bypass()[i as int] == list@[i as int]@);
        if str_eq(list[i], "<local>") {
            has_local = true;
        }
        i = i + 1;
    }
    let mut parts: Vec<&'static str> = list;
    if !has_local {
        parts.push("<local>");
    }
    let ghost pv = parts@.map_values(|s: &'static str| s@);
    assert(pv =~= (if default_bypass().contains("<local>"@) {
        default_bypass()
    } else {
        default_bypass().push("<local>"@)
    }));
    let mut out: Vec<char> = Vec::new();
    let mut j: usize = 0;
    while j < parts.len()
        invariant
            j <= parts@.len(),
            pv == parts@.map_values(|s: &'static str| s@),
            out@ == join_semi(pv.take(j as int)),
        decreases parts.len() - j,
    {
        if j > 0 {
            out.push(';');
        }
        push_str(&mut out, parts[j]);
        assert(pv.take(j + 1).drop_last() == pv.take(j as int));
        assert(pv.take(j + 1).last() == parts@[j as int]@);
        if j == 0 {
            assert(pv.take(1) =~= seq![parts@[0]@]);
            assert(out@ =~= Seq::<char>::empty() + parts@[0]@);
        }
        j = j + 1;
    }
    assert(pv.take(pv.len() as int) == pv);
    string_of(out.as_slice())
}

/// `s` split at every `;` (what `split(';')` yields).
#[verifier::opaque]
pub open spec fn split_semi(s: Seq<char>) -> Seq<Seq<char>>
    decreases s.len(),
{
    match first_index_of(s, ';') {
        None => seq![s],
        Some(i) => {
            proof {
                lemma_first_index_of(s, ';');
            }
            seq![s.subrange(0, i)] + split_semi(s.subrange(i + 1, s.len() as int))
        },
    }
}

/// One unfolding of `split_semi`.
pub proof fn lemma_split_semi_step(s: Seq<char>)
    ensures
        first_index_of(s, ';') is None ==> split_semi(s) == seq![s],
        first_index_of(s, ';') is Some ==> split_semi(s) == seq![
            s.subrange(0, first_index_of(s, ';').unwrap())
        ] + split_semi(s.subrange(first_index_of(s, ';').unwrap() + 1, s.len() as int)),
        split_semi(s).len() >= 1,
{
    reveal(split_semi);
    lemma_first_index_of(s, ';');
}

/// Does a stored `ProxyServer` value point at `host:port`? A per-protocol
/// value (`http=h:p;https=h:p;...`) matches when one of its parts is
/// `http=host:port` (any case) or `host:port`; a plain value must equal
/// `host:port`.
pub open spec fn server_matches(server: Seq<char>, host: Seq<char>, port: u16) -> bool {
    let want = server_value(host, port);
    if server.contains('=') {
        exists|k: int|
            0 <= k < split_semi(server).len() && {
                let part = trim(#[trigger] split_semi(server)[k]);
                eq_ignore_ascii_case(part, "http="@ + want) || part == want
            }
    } else {
        server == want
    }
}

/// Whether a stored `ProxyServer` value points at `host:port`.
pub fn windows_server_matches(server: &str, host: &str, port: u16) -> (r: bool)
    ensures
        r == server_matches(server@, host@, port),
{
    let sv = chars_of(server);
    let want = windows_proxy_server(host, port);
    let wv = chars_of(want.as_str());
    let http_want = crate::text::concat2("http=", want.as_str());
    match find_char(sv.as_slice(), '=') {
        None => {
            assert(!sv@.contains('=')) by {
                if sv@.contains('=') {
                    let k = choose|k: int| 0 <= k < sv@.len() && sv@[k] == '=';
                    assert(sv@[k] != '=');
                }
            }
            crate::text::same_chars(sv.as_slice(), wv.as_slice())
        },
        Some(q) => {
            assert(sv@[q as int] == '=');
            assert(sv@.contains('='));
            let n = sv.len();
            let mut start: usize = 0;
            let ghost parts = split_semi(sv@);
            let ghost mut seen: int = 0;
            assert(sv@.subrange(0, n as int) == sv@);
            loop
                invariant
                    start <= n == sv@.len(),
                    sv@ == server@,
                    sv@.contains('='),
                    wv@ == want@,
                    want@ == server_value(host@, port),
                    http_want@ == "http="@ + want@,
                    parts == split_semi(sv@),
                    0 <= seen <= parts.len(),
                    parts.subrange(seen, parts.len() as int) == split_semi(sv@.subrange(start as int, n as int)),
                    forall|k: int| 0 <= k < seen ==> {
                        let part = trim(#[trigger] parts[k]);
                        !(eq_ignore_ascii_case(part, "http="@ + want@) || part == want@)
                    },
                decreases n - start,
            {
                let rest = slice_chars(sv.as_slice(), start, n);
                let cut = find_char(rest.as_slice(), ';');
                let seg = match cut {
                    Some(i) => slice_chars(rest.as_slice(), 0, i),
                    None => slice_chars(rest.as_slice(), 0, rest.len()),
                };
                proof {
                    lemma_split_semi_step(rest@);
                    assert(rest@.subrange(0, rest@.len() as int) == rest@);
                    assert(split_semi(rest@)[0] == seg@);
                    assert(parts.subrange(seen, parts.len() as int).len() >= 1);
                    assert(parts[seen] == parts.subrange(seen, parts.len() as int)[0]);
                }
                let part = trim_chars(seg.as_slice());
                let hit = ascii_case_eq(part.as_slice(), http_want.as_str()) || crate::text::same_chars(
                    part.as_slice(),
                    wv.as_slice(),
                );
                if hit {
                    assert(sv@ == server@);
                    assert(0 <= seen < split_semi(server@).len());
                    assert({
                        let p = trim(split_semi(server@)[seen]);
                        eq_ignore_ascii_case(p, "http="@ + want@) || p == want@
                    });
                    assert(server_matches(server@, host@, port));
                    return true;
                }
                match cut {
                    None => {
                        proof {
                            assert(parts.subrange(seen, parts.len() as int).len() == 1);
                            assert(sv@ == server@);
                            assert forall|k: int| 0 <= k < split_semi(server@).len() implies !({
                                let p = trim(#[trigger] split_semi(server@)[k]);
                                eq_ignore_ascii_case(p, "http="@ + want@) || p == want@
                            }) by {
                                if k < seen {
                                    assert(!({
                                        let p = trim(parts[k]);
                                        eq_ignore_ascii_case(p, "http="@ + want@) || p == want@
                                    }));
                                }
                            }
                            assert(!server_matches(server@, host@, port));
                        }
                        return false;
                    },
                    Some(i) => {
                        proof {
                            let tail = rest@.subrange(i + 1, rest@.len() as int);
                            assert(tail == sv@.subrange(start + i + 1, n as int));
                            assert(parts.subrange(seen + 1, parts.len() as int) =~= parts.subrange(seen, parts.len() as int).drop_first());
                            assert(split_semi(rest@).drop_first() =~= split_semi(tail));
                            seen = seen + 1;
                        }
                        start = start + i + 1;
                    },
                }
            }
        },
    }
}

/// The per-user Internet Settings values that the Windows proxy switch
/// writes and reads (`None`: the value is missing or unreadable, which
/// counts as off and as an empty server).
#[derive(Debug, Clone)]
pub struct InternetSettings {
    pub proxy_enable: Option<u32>,
    pub proxy_server: Option<String>,
    pub proxy_override: Option<String>,
}

/// The settings by their values.
pub open spec fn settings_view(s: InternetSettings) -> (Option<u32>, Option<Seq<char>>, Option<Seq<char>>) {
    (s.proxy_enable, match s.proxy_server {
        Some(v) => Some(v@),
        None => None,
    }, match s.proxy_override {
        Some(v) => Some(v@),
        None => None,
    })
}

/// What enabling the proxy for `host:port` writes: `ProxyEnable = 1`, the
/// server and the bypass list.
pub open spec fn enabled_view(host: Seq<char>, port: u16) -> (Option<u32>, Option<Seq<char>>, Option<Seq<char>>) {
    (Some(1), Some(server_value(host, port)), Some(override_value()))
}

/// What disabling writes: `ProxyEnable = 0`; the rest stays.
pub open spec fn disabled_view(v: (Option<u32>, Option<Seq<char>>, Option<Seq<char>>)) -> (
    Option<u32>,
    Option<Seq<char>>,
    Option<Seq<char>>,
) {
    (Some(0), v.1, v.2)
}

/// Is the proxy on and pointing at `host:port`, by these settings?
pub open spec fn proxy_on(v: (Option<u32>, Option<Seq<char>>, Option<Seq<char>>), host: Seq<char>, port: u16) -> bool {
    let on = match v.0 {
        Some(x) => x,
        None => 0,
    };
    on != 0 && server_matches(
        match v.1 {
            Some(x) => x,
            None => Seq::empty(),
        },
        host,
        port,
    )
}

/// Points the Windows proxy settings at `host:port`.
pub fn windows_enable(settings: &mut InternetSettings, host: &str, port: u16)
    ensures
        settings_view(*final(settings)) == enabled_view(host@, port),
{
    settings.proxy_enable = Some(1);
    settings.proxy_server = Some(windows_proxy_server(host, port));
    settings.proxy_override = Some(windows_bypass());
}

/// Turns the Windows proxy off, keeping the server and bypass values.
pub fn windows_disable(settings: &mut InternetSettings)
    ensures
        settings_view(*final(settings)) == disabled_view(settings_view(*old(settings))),
{
    settings.proxy_enable = Some(0);
}

/// Reads whether the Windows proxy is on and pointing at `host:port`.
pub fn windows_is_enabled(settings: &InternetSettings, host: &str, port: u16) -> (r: bool)
    ensures
        r == proxy_on(settings_view(*settings), host@, port),
{
    let on = match settings.proxy_enable {
        Some(x) => x,
        None => 0,
    };
    if on == 0 {
        return false;
    }
    match &settings.proxy_server {
        Some(server) => windows_server_matches(server.as_str(), host, port),
        None => {
            let empty = String::new();
            windows_server_matches(empty.as_str(), host, port)
        },
    }
}

proof fn lemma_dec_lacks(n: nat, c: char)
    requires
        c == '=' || c == ';',
    ensures
        !dec(n).contains(c),
    decreases n,
{
    if n >= 10 {
        lemma_dec_lacks(n / 10, c);
        let d = dec(n / 10);
        assert(dec(n) == d.push(crate::text::digit_char(n % 10)));
        if dec(n).contains(c) {
            let i = choose|i: int| 0 <= i < dec(n).len() && dec(n)[i] == c;
            if i < d.len() {
                assert(dec(n)[i] == d[i]);
            }
        }
    } else {
        assert(dec(n) == seq![crate::text::digit_char(n)]);
    }
}

/// `host:port` holds `c` (`=` or `;`) only where `host` does.
proof fn lemma_server_value_lacks(host: Seq<char>, port: u16, c: char)
    requires
        c == '=' || c == ';',
        !host.contains(c),
    ensures
        !server_value(host, port).contains(c),
{
    lemma_dec_lacks(port as nat, c);
    let sv = server_value(host, port);
    if sv.contains(c) {
        let i = choose|i: int| 0 <= i < sv.len() && sv[i] == c;
        if i < host.len() {
            assert(sv[i] == host[i]);
        } else if i == host.len() {
            assert(sv[i] == ':');
        } else {
            assert(sv[i] == dec(port as nat)[i - host.len() - 1]);
        }
    }
}

/// After enabling the Windows proxy for `host:port`, it reads as on for a
/// server exactly when the stored value `host:port` matches that server.
/// For a host without `;` or surrounding blanks, that is when the value is
/// that server's `host:port`, or, for a value with `=`, is `http=` and that
/// server's `host:port` in any case; so it reads as on for `host:port`
/// itself, and, for a host without `=`, for no other server. After
/// disabling it reads as off for every server.
pub proof fn lemma_windows_proxy_state(
    v: (Option<u32>, Option<Seq<char>>, Option<Seq<char>>),
    host: Seq<char>,
    port: u16,
    host2: Seq<char>,
    port2: u16,
)
    ensures
        proxy_on(enabled_view(host, port), host2, port2) == server_matches(
            server_value(host, port),
            host2,
            port2,
        ),
        !host.contains(';') && trim(server_value(host, port)) == server_value(host, port) ==> (
        proxy_on(enabled_view(host, port), host2, port2) <==> (server_value(host2, port2)
            == server_value(host, port) || (server_value(host, port).contains('=')
            && eq_ignore_ascii_case(server_value(host, port), "http="@ + server_value(host2, port2))))),
        !host.contains(';') && trim(server_value(host, port)) == server_value(host, port) ==> proxy_on(
            enabled_view(host, port),
            host,
            port,
        ),
        !host.contains('=') ==> (proxy_on(enabled_view(host, port), host2, port2) <==> server_value(
            host2,
            port2,
        ) == server_value(host, port)),
        !proxy_on(disabled_view(v), host2, port2),
{
    let sv = server_value(host, port);
    if !host.contains('=') {
        lemma_server_value_lacks(host, port, '=');
    }
    if !host.contains(';') {
        lemma_server_value_lacks(host, port, ';');
        lemma_split_semi_step(sv);
        lemma_first_index_of(sv, ';');
        if first_index_of(sv, ';') is Some {
            let i = first_index_of(sv, ';').unwrap();
            assert(sv[i] == ';');
        }
        assert(split_semi(sv) == seq![sv]);
        assert(split_semi(sv)[0] == sv);
    }
}

} // verus!
